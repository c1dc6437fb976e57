use imap_quota::AString;
use imap_quota::Atom;
use imap_quota::CommandBody;
use imap_quota::Data;
use imap_quota::Encode;
use imap_quota::QuotaResource;
use imap_quota::QuotaResourceName;
use imap_quota::SetQuotaResource;
use imap_quota::TokenError;

fn astr(s: &str) -> AString {
    AString::try_new(s.as_bytes().to_vec()).unwrap()
}

fn atom(s: &str) -> Atom {
    Atom::try_new(s.as_bytes().to_vec()).unwrap()
}

fn encoded(v: &impl Encode) -> Vec<u8> {
    let mut writer: Vec<u8> = Vec::new();
    v.encode(&mut writer);
    writer
}

fn encoded_str(v: &impl Encode) -> String {
    let writer = encoded(v);
    std::str::from_utf8(&writer).unwrap().to_string()
}

#[test]
fn command_output() {
    assert_eq!(encoded_str(&CommandBody::get_quota(astr("INBOX"))), "GETQUOTA INBOX");
    assert_eq!(encoded_str(&CommandBody::get_quota(astr(""))), "GETQUOTA \"\"");
    assert_eq!(
        encoded_str(&CommandBody::get_quota_root(astr("MAILBOX"))),
        "GETQUOTAROOT MAILBOX"
    );
    assert_eq!(
        encoded_str(&CommandBody::set_quota(astr("INBOX"), vec![])),
        "SETQUOTA INBOX ()"
    );
    assert_eq!(
        encoded_str(&CommandBody::set_quota(
            astr("INBOX"),
            vec![SetQuotaResource {
                name: QuotaResourceName::Storage,
                limit: 256,
            }],
        )),
        "SETQUOTA INBOX (STORAGE 256)"
    );
    assert_eq!(
        encoded_str(&CommandBody::set_quota(
            astr("INBOX"),
            vec![
                SetQuotaResource {
                    name: QuotaResourceName::Message,
                    limit: 256,
                },
                SetQuotaResource {
                    name: QuotaResourceName::Storage,
                    limit: 512,
                },
            ],
        )),
        "SETQUOTA INBOX (MESSAGE 256 STORAGE 512)"
    );
}

#[test]
fn response_output() {
    assert_eq!(
        encoded_str(&Data::quota(
            astr("INBOX"),
            vec![QuotaResource {
                name: QuotaResourceName::Message,
                usage: 1024,
                limit: 2048,
            }],
        )),
        "* QUOTA INBOX (MESSAGE 1024 2048)\r\n"
    );
    assert_eq!(
        encoded_str(&Data::quota_root(astr("INBOX"), vec![])),
        "* QUOTAROOT INBOX \"\"\r\n"
    );
    assert_eq!(
        encoded_str(&Data::quota_root(
            astr("INBOX"),
            vec![astr("ROOT1"), astr("ROOT2")]
        )),
        "* QUOTAROOT INBOX ROOT1 ROOT2\r\n"
    );
}

#[test]
fn storage_pair_decimal_rendering() {
    let zero = SetQuotaResource {
        name: QuotaResourceName::Storage,
        limit: 0,
    };
    assert_eq!(encoded_str(&zero), "STORAGE 0");
    let seven = SetQuotaResource {
        name: QuotaResourceName::Storage,
        limit: 7,
    };
    assert_eq!(encoded_str(&seven), "STORAGE 7");
    let largest = SetQuotaResource {
        name: QuotaResourceName::Storage,
        limit: u64::MAX,
    };
    assert_eq!(encoded_str(&largest), "STORAGE 18446744073709551615");
}

#[test]
fn extension_resource_name() {
    let pair = SetQuotaResource {
        name: QuotaResourceName::Atom(atom("X-ANNOTATION-STORAGE")),
        limit: 90,
    };
    assert_eq!(encoded_str(&pair), "X-ANNOTATION-STORAGE 90");
    let report = QuotaResource {
        name: QuotaResourceName::Atom(atom("X-ANNOTATION-STORAGE")),
        usage: 10,
        limit: 90,
    };
    assert_eq!(encoded_str(&report), "X-ANNOTATION-STORAGE 10 90");
}

#[test]
fn duplicate_pairs_kept_in_order() {
    let body = CommandBody::set_quota(
        astr("INBOX"),
        vec![
            SetQuotaResource {
                name: QuotaResourceName::Storage,
                limit: 512,
            },
            SetQuotaResource {
                name: QuotaResourceName::Storage,
                limit: 256,
            },
        ],
    );
    assert_eq!(encoded_str(&body), "SETQUOTA INBOX (STORAGE 512 STORAGE 256)");
}

#[test]
fn mailbox_quoting_with_escapes() {
    assert_eq!(
        encoded_str(&CommandBody::get_quota(astr("he\"llo"))),
        "GETQUOTA \"he\\\"llo\""
    );
    assert_eq!(
        encoded_str(&CommandBody::get_quota(astr("back\\slash"))),
        "GETQUOTA \"back\\\\slash\""
    );
    assert_eq!(
        encoded_str(&CommandBody::get_quota(astr("two words"))),
        "GETQUOTA \"two words\""
    );
}

#[test]
fn mailbox_literal_form() {
    assert_eq!(
        encoded_str(&CommandBody::get_quota(astr("AB\nC"))),
        "GETQUOTA {4}\r\nAB\nC"
    );
    let high = AString::try_new(vec![0x41, 0xff]).unwrap();
    let mut expected: Vec<u8> = b"GETQUOTA {2}\r\n".to_vec();
    expected.push(0x41);
    expected.push(0xff);
    assert_eq!(encoded(&CommandBody::get_quota(high)), expected);
}

#[test]
fn encoding_is_deterministic() {
    let body = CommandBody::set_quota(
        astr("INBOX"),
        vec![SetQuotaResource {
            name: QuotaResourceName::Message,
            limit: 3,
        }],
    );
    let first = encoded(&body);
    let second = encoded(&body);
    assert_eq!(first, second);

    let mut primed: Vec<u8> = b"prefix".to_vec();
    body.encode(&mut primed);
    assert_eq!(&primed[6..], first.as_slice());
}

#[test]
fn encoding_leaves_the_value_unchanged() {
    let report = Data::quota(
        astr("INBOX"),
        vec![QuotaResource {
            name: QuotaResourceName::Storage,
            usage: 1,
            limit: 2,
        }],
    );
    let snapshot = report.clone();
    let first = encoded(&report);
    assert_eq!(report, snapshot);
    let second = encoded(&report);
    assert_eq!(first, second);
    assert_eq!(report, snapshot);
}

#[test]
fn atom_construction_rejects_illegal_tokens() {
    assert_eq!(
        Atom::try_new(b"".to_vec()).unwrap_err(),
        TokenError::NotAnAtom
    );
    assert_eq!(
        Atom::try_new(b"two words".to_vec()).unwrap_err(),
        TokenError::NotAnAtom
    );
    assert_eq!(
        Atom::try_new(b"paren(".to_vec()).unwrap_err(),
        TokenError::NotAnAtom
    );
    assert_eq!(
        Atom::try_new(b"quo\"te".to_vec()).unwrap_err(),
        TokenError::NotAnAtom
    );
    assert!(Atom::try_new(b"STORAGE-EXT".to_vec()).is_ok());
}

#[test]
fn astring_construction_rejects_nul() {
    assert_eq!(
        AString::try_new(vec![0x41, 0x00, 0x42]).unwrap_err(),
        TokenError::ContainsNul
    );
    assert!(AString::try_new(vec![]).is_ok());
    assert!(AString::try_new(vec![0xff]).is_ok());
}
