use vstd::prelude::*;
use crate::error::Error;
use crate::manifest::ManifestSource;
use crate::reporter::{Reporter, Silent};
use crate::resources::{downloadable_of, ResourceInfo};
use crate::sync::{bytes_of, Report, RunState, SyncRun};

verus! {

/// The kind of runtime that a run is driven on.
#[derive(Debug, Clone, Copy, PartialEq, Eq, Structural)]
pub enum RuntimeFlavor {
    /// Several threads, as many as the machine suggests.
    MultiThread,
    /// The calling thread alone.
    CurrentThread,
    /// Several threads, this many.
    MultiThreadWith(usize),
}

/// The flavor for a thread hint: none for zero, the calling thread for one.
pub open spec fn flavor_for(threads: usize) -> RuntimeFlavor {
    if threads == 0 {
        RuntimeFlavor::MultiThread
    } else if threads == 1 {
        RuntimeFlavor::CurrentThread
    } else {
        RuntimeFlavor::MultiThreadWith(threads)
    }
}

/// The settings of a downloader as mathematical values.
pub struct Settings {
    pub url: Seq<char>,
    pub output: Seq<char>,
    pub concurrency: usize,
    pub threads: usize,
}

/// A resource downloader: where the manifest is, where the files go, how
/// many are fetched at a time, and who is told.
pub struct KDownloader<R: Reporter> {
    url: String,
    output: String,
    concurrency: usize,
    threads: usize,
    reporter: Option<R>,
}

impl<R: Reporter> View for KDownloader<R> {
    type V = Settings;

    closed spec fn view(&self) -> Settings {
        Settings {
            url: self.url@,
            output: self.output@,
            concurrency: self.concurrency,
            threads: self.threads,
        }
    }
}

impl KDownloader<Silent> {
    /// A downloader for the manifest at `url`, with the defaults: the
    /// current directory, four files at a time, threads as the machine
    /// suggests, nobody told.
    pub fn new(url: String) -> (downloader: KDownloader<Silent>)
        ensures
            downloader@ == (Settings { url: url@, output: "."@, concurrency: 4, threads: 0 }),
            downloader.reporter() is None,
    {
        KDownloader {
            url,
            output: String::from_str("."),
            concurrency: 4,
            threads: 0,
            reporter: None,
        }
    }
}

impl<R: Reporter> KDownloader<R> {
    /// The reporter that is told of every file, if there is one.
    pub closed spec fn reporter(&self) -> Option<R> {
        self.reporter
    }

    /// The same downloader, with `reporter` told of every file.
    pub fn with_reporter<Q>(self, reporter: Q) -> (downloader: KDownloader<Q>) where
        Q: Reporter + Send + Sync + 'static,

        ensures
            downloader@ == self@,
            downloader.reporter() == Some(reporter),
    {
        KDownloader {
            url: self.url,
            output: self.output,
            concurrency: self.concurrency,
            threads: self.threads,
            reporter: Some(reporter),
        }
    }

    /// Where the manifest is requested.
    pub fn url(&self) -> (url: &String)
        ensures
            url@ == self@.url,
    {
        &self.url
    }

    /// The directory under which the files are placed.
    pub fn output(&self) -> (output: &String)
        ensures
            output@ == self@.output,
    {
        &self.output
    }

    /// How many workers may hold an admission slot at a time.
    pub fn concurrency(&self) -> (concurrency: usize)
        ensures
            concurrency == self@.concurrency,
    {
        self.concurrency
    }

    /// The thread hint: zero leaves the number to the machine.
    pub fn threads(&self) -> (threads: usize)
        ensures
            threads == self@.threads,
    {
        self.threads
    }

    /// The same downloader, placing the files under `output`.
    pub fn with_output(self, output: String) -> (downloader: KDownloader<R>)
        ensures
            downloader@ == (Settings { output: output@, ..self@ }),
            downloader.reporter() == self.reporter(),
    {
        KDownloader {
            url: self.url,
            output,
            concurrency: self.concurrency,
            threads: self.threads,
            reporter: self.reporter,
        }
    }

    /// The same downloader, with at most `concurrency` workers at a time.
    pub fn with_concurrency(self, concurrency: usize) -> (downloader: KDownloader<R>)
        ensures
            downloader@ == (Settings { concurrency, ..self@ }),
            downloader.reporter() == self.reporter(),
    {
        KDownloader {
            url: self.url,
            output: self.output,
            concurrency,
            threads: self.threads,
            reporter: self.reporter,
        }
    }

    /// The same downloader, with the thread hint `threads`.
    pub fn with_threads(self, threads: usize) -> (downloader: KDownloader<R>)
        ensures
            downloader@ == (Settings { threads, ..self@ }),
            downloader.reporter() == self.reporter(),
    {
        KDownloader {
            url: self.url,
            output: self.output,
            concurrency: self.concurrency,
            threads,
            reporter: self.reporter,
        }
    }

    /// The flavor of runtime that the thread hint asks for.
    pub fn runtime_flavor(&self) -> (flavor: RuntimeFlavor)
        ensures
            flavor == flavor_for(self@.threads),
    {
        if self.threads == 0 {
            RuntimeFlavor::MultiThread
        } else if self.threads == 1 {
            RuntimeFlavor::CurrentThread
        } else {
            RuntimeFlavor::MultiThreadWith(self.threads)
        }
    }

    /// Plans the run for a manifest: the source says what to snapshot, and
    /// `parsed` is what parsing its text form gave, the manifest or the
    /// parser's message. A manifest that did not parse ends the run before
    /// any worker starts.
    pub fn prepare(&self, source: ManifestSource, parsed: Result<ResourceInfo, String>) -> (run:
        Result<SyncRun, Error>)
        ensures
            match parsed {
                Ok(info) => run matches Ok(planned) && planned.wf() && planned@
                    == RunState::initial(
                    downloadable_of(info.files@),
                    self@.concurrency,
                    bytes_of(source.retained()),
                ),
                Err(message) => run matches Err(e) && e == Error::ParseResourceInfo(message),
            },
    {
        match parsed {
            Ok(info) => Ok(SyncRun::plan(&info.files, self.concurrency, source.into_snapshot())),
            Err(message) => Err(Error::ParseResourceInfo(message)),
        }
    }

    /// Hands `report` to the reporter, if there is one.
    pub fn deliver(&self, report: Report) {
        if let Some(reporter) = &self.reporter {
            reporter.report(report.file, report.status, report.total_files, report.total_bytes);
        }
    }
}

} // verus!
