use certkit::extension::{ext_type_eq, Extension, Extensions, KeyUsageOption};
use certkit::san::GeneralName;

#[test]
fn test_add_replaces_in_place() {
    let mut exts = Extensions::new();
    exts.add(Extension::KeyUsage(vec![KeyUsageOption::DigitalSignature]));
    exts.add(Extension::OtherStr("nsComment".to_string(), "first".to_string()));
    exts.add(Extension::KeyUsage(vec![KeyUsageOption::KeyEncipherment]));

    let items = exts.iter();
    assert_eq!(items.len(), 2);
    match &items[0].1 {
        Extension::KeyUsage(os) => {
            assert_eq!(os.len(), 1);
            assert!(matches!(os[0], KeyUsageOption::KeyEncipherment));
        }
        _ => panic!("expected the key-usage extension to keep its position"),
    }
    match &items[1].1 {
        Extension::OtherStr(k, v) => {
            assert_eq!(k, "nsComment");
            assert_eq!(v, "first");
        }
        _ => panic!("expected the textual extension second"),
    }
}

#[test]
fn test_no_duplicate_types() {
    let mut exts = Extensions::new();
    exts.add(Extension::KeyUsage(vec![KeyUsageOption::DigitalSignature]));
    exts.add(Extension::SubjectAltName(vec![GeneralName::Dns(
        "example.com".to_string(),
    )]));
    exts.add(Extension::KeyUsage(vec![KeyUsageOption::CRLSign]));
    exts.add(Extension::SubjectAltName(vec![GeneralName::Other]));
    exts.add(Extension::OtherStr("nsComment".to_string(), "x".to_string()));

    let items = exts.iter();
    assert_eq!(items.len(), 3);
    for i in 0..items.len() {
        for j in (i + 1)..items.len() {
            assert!(
                !ext_type_eq(&items[i].0, &items[j].0),
                "two extensions of the same type"
            );
        }
    }
}

#[test]
fn test_insertion_order_kept() {
    let mut exts = Extensions::new();
    exts.add(Extension::OtherStr("a".to_string(), "1".to_string()));
    exts.add(Extension::OtherStr("b".to_string(), "2".to_string()));
    exts.add(Extension::OtherStr("c".to_string(), "3".to_string()));
    exts.add(Extension::OtherStr("b".to_string(), "9".to_string()));

    let items = exts.iter();
    assert_eq!(items.len(), 3);
    let keys: Vec<String> = items
        .iter()
        .map(|p| match &p.1 {
            Extension::OtherStr(k, _) => k.clone(),
            _ => panic!("unexpected extension kind"),
        })
        .collect();
    assert_eq!(keys, vec!["a".to_string(), "b".to_string(), "c".to_string()]);
    match &items[1].1 {
        Extension::OtherStr(_, v) => assert_eq!(v, "9"),
        _ => panic!("unexpected extension kind"),
    }
}
