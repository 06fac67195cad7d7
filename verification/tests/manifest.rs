use kdownloader::manifest::{BinaryAttempt, ManifestSource};
use kdownloader::Error;

#[test]
fn text_body_is_its_own_canonical_form() {
    let body = b"<list></list>".to_vec();
    let source = ManifestSource::resolve(body.clone(), BinaryAttempt::NotBinary).unwrap();
    assert_eq!(source, ManifestSource::Text { canonical: body.clone() });
    assert_eq!(source.canonical(), &body);
    assert_eq!(source.into_snapshot(), None);
}

#[test]
fn binary_body_keeps_the_bytes_received() {
    let body = vec![0xa0, 0x42, 0x80, 0x7f, 0x00];
    let text = b"<list/>".to_vec();
    let source =
        ManifestSource::resolve(body.clone(), BinaryAttempt::Rendered(text.clone())).unwrap();
    assert_eq!(source, ManifestSource::Binary { canonical: text.clone(), raw: body.clone() });
    assert_eq!(source.canonical(), &text);
    assert_eq!(source.into_snapshot(), Some(body));
}

#[test]
fn binary_body_without_text_form_is_an_error() {
    let result = ManifestSource::resolve(
        vec![0xa0, 0x42],
        BinaryAttempt::Unrenderable("invalid string".to_string()),
    );
    assert_eq!(result, Err(Error::ConvertResourceInfo("invalid string".to_string())));
}

#[test]
fn empty_body_resolves_as_text() {
    let source = ManifestSource::resolve(Vec::new(), BinaryAttempt::NotBinary).unwrap();
    assert_eq!(source.canonical(), &Vec::<u8>::new());
    assert_eq!(source.into_snapshot(), None);
}
