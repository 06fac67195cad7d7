use vstd::prelude::*;

verus! {

/// One manifest entry.
#[derive(Debug, Clone, PartialEq, Eq)]
pub struct FileResource {
    /// Destination, relative to the output root.
    pub path: String,
    /// Informational only.
    pub version: i32,
    /// Byte count, used for the totals of a run.
    pub size: i32,
    /// Lower-case hex digest of the content.
    pub sum: String,
    /// Source of the content; empty for an entry that cannot be downloaded.
    pub url: String,
}

/// The decoded manifest: descriptors in document order.
#[derive(Debug, Clone)]
pub struct ResourceInfo {
    pub files: Vec<FileResource>,
}

impl Default for FileResource {
    /// The descriptor of an entry that gives no field: empty texts and zeros.
    fn default() -> (file: FileResource)
        ensures
            file.path@.len() == 0,
            file.version == 0,
            file.size == 0,
            file.sum@.len() == 0,
            file.url@.len() == 0,
    {
        FileResource {
            path: String::new(),
            version: 0,
            size: 0,
            sum: String::new(),
            url: String::new(),
        }
    }
}

impl Default for ResourceInfo {
    /// The manifest that lists nothing.
    fn default() -> (info: ResourceInfo)
        ensures
            info.files@.len() == 0,
    {
        ResourceInfo { files: Vec::new() }
    }
}

/// The number of values of a machine word.
pub open spec fn word_modulus() -> int {
    usize::MAX + 1
}

/// The test that the filter applies: the descriptor names a source.
pub open spec fn has_source() -> spec_fn(FileResource) -> bool {
    |f: FileResource| f.downloadable()
}

/// The descriptors of `files` that have a source, in their order.
pub open spec fn downloadable_of(files: Seq<FileResource>) -> Seq<FileResource> {
    files.filter(has_source())
}

/// The plain sum of the sizes of `files`.
pub open spec fn size_sum(files: Seq<FileResource>) -> int
    decreases files.len(),
{
    if files.len() == 0 {
        0
    } else {
        size_sum(files.drop_last()) + files.last().size
    }
}

/// The byte total of `files`: the sum of their sizes, reduced to a machine
/// word.
pub open spec fn total_size(files: Seq<FileResource>) -> int {
    size_sum(files) % word_modulus()
}

/// The byte total fits a machine word.
pub proof fn lemma_total_size_bounds(files: Seq<FileResource>)
    ensures
        0 <= total_size(files) <= usize::MAX,
{
    vstd::arithmetic::div_mod::lemma_mod_bound(size_sum(files), word_modulus());
}

/// A size counts as itself reduced to a machine word.
proof fn lemma_counted_size(file: FileResource)
    ensures
        file.counted_size() == (file.size as int) % word_modulus(),
        0 <= file.counted_size() <= usize::MAX,
{
    let m = word_modulus();
    if file.size >= 0 {
        vstd::arithmetic::div_mod::lemma_small_mod(file.size as nat, m as nat);
    } else {
        vstd::arithmetic::div_mod::lemma_small_mod((m + file.size) as nat, m as nat);
        vstd::arithmetic::div_mod::lemma_mod_add_multiples_vanish(file.size as int, m);
    }
}

/// Adding a size to a total, as unsigned addition wraps, gives the total of
/// the longer list.
proof fn lemma_total_size_step(files: Seq<FileResource>, sum: int)
    requires
        files.len() > 0,
        sum == total_size(files.drop_last()) + files.last().counted_size(),
    ensures
        0 <= sum <= 2 * usize::MAX,
        sum <= usize::MAX ==> total_size(files) == sum,
        sum > usize::MAX ==> total_size(files) == sum - word_modulus(),
{
    let m = word_modulus();
    let before = size_sum(files.drop_last());
    let size = files.last().size as int;
    lemma_total_size_bounds(files.drop_last());
    lemma_counted_size(files.last());
    vstd::arithmetic::div_mod::lemma_add_mod_noop(before, size, m);
    assert(total_size(files) == sum % m);
    if sum <= usize::MAX {
        vstd::arithmetic::div_mod::lemma_small_mod(sum as nat, m as nat);
    } else {
        vstd::arithmetic::div_mod::lemma_small_mod((sum - m) as nat, m as nat);
        vstd::arithmetic::div_mod::lemma_mod_sub_multiples_vanish(sum, m);
    }
}

impl FileResource {
    /// Whether the descriptor names a source.
    pub open spec fn downloadable(&self) -> bool {
        self.url@.len() > 0
    }

    /// The size as an unsigned machine word: itself when it is not negative,
    /// else its two's complement. Either way it is the size reduced to a
    /// machine word.
    pub open spec fn counted_size(&self) -> int {
        if self.size >= 0 {
            self.size as int
        } else {
            usize::MAX + 1 + self.size
        }
    }

    pub fn is_downloadable(&self) -> (b: bool)
        ensures
            b == self.downloadable(),
    {
        !self.url.as_str().is_empty()
    }

    /// An equal descriptor, for a second owner.
    pub fn duplicate(&self) -> (copy: FileResource)
        ensures
            copy == *self,
    {
        FileResource {
            path: self.path.clone(),
            version: self.version,
            size: self.size,
            sum: self.sum.clone(),
            url: self.url.clone(),
        }
    }

    pub fn size_word(&self) -> (n: usize)
        ensures
            n == self.counted_size(),
    {
        if self.size >= 0 {
            self.size as usize
        } else {
            usize::MAX - ((-(self.size + 1)) as usize)
        }
    }
}

/// Drops every descriptor without a source and keeps the others in order.
pub fn retain_downloadable(files: &Vec<FileResource>) -> (kept: Vec<FileResource>)
    ensures
        kept@ == downloadable_of(files@),
{
    let mut kept: Vec<FileResource> = Vec::new();
    let mut i: usize = 0;
    proof {
        reveal(Seq::filter);
        assert(files@.take(0) =~= Seq::<FileResource>::empty());
    }
    while i < files.len()
        invariant
            i <= files.len(),
            kept@ == downloadable_of(files@.take(i as int)),
        decreases files.len() - i,
    {
        proof {
            reveal(Seq::filter);
            assert(files@.take(i + 1).drop_last() =~= files@.take(i as int));
            assert(files@.take(i + 1).last() == files@[i as int]);
        }
        if files[i].is_downloadable() {
            kept.push(files[i].duplicate());
        }
        i = i + 1;
    }
    proof {
        assert(files@.take(files.len() as int) =~= files@);
    }
    kept
}

/// The byte total of `files`.
pub fn sum_sizes(files: &Vec<FileResource>) -> (total: usize)
    ensures
        total == total_size(files@),
{
    let mut total: usize = 0;
    let mut i: usize = 0;
    proof {
        assert(files@.take(0) =~= Seq::<FileResource>::empty());
        vstd::arithmetic::div_mod::lemma_small_mod(0, word_modulus() as nat);
    }
    while i < files.len()
        invariant
            i <= files.len(),
            total == total_size(files@.take(i as int)),
        decreases files.len() - i,
    {
        let word: usize = files[i].size_word();
        proof {
            assert(files@.take(i + 1).drop_last() =~= files@.take(i as int));
            assert(files@.take(i + 1).last() == files@[i as int]);
            lemma_total_size_step(files@.take(i + 1), total + word);
        }
        total = if total <= usize::MAX - word {
            total + word
        } else {
            total - (usize::MAX - word) - 1
        };
        i = i + 1;
    }
    proof {
        assert(files@.take(files.len() as int) =~= files@);
    }
    total
}

} // verus!
