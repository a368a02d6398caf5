use surfrs::data::ecmwf_field::ECMWFField;
use surfrs::model::byte_range::{ByteRange, IndexEntry};
use surfrs::model::ecmwf_wave::{ECMWFIndexQuery, MemberSelection};

fn entry(offset: u64, length: Option<u64>, var: &str, number: Option<&str>, step: &str) -> IndexEntry {
    IndexEntry {
        offset,
        length,
        var: Some(var.to_string()),
        number: number.map(|n| n.to_string()),
        forecast_time: Some(step.to_string()),
    }
}

fn entries() -> Vec<IndexEntry> {
    vec![
        entry(0, Some(100), "swh", Some("1"), "24"),
        entry(100, Some(50), "mwd", Some("1"), "24"),
        entry(150, Some(70), "swh", Some("2"), "24"),
        entry(220, Some(30), "swh", None, "24"),
        entry(250, Some(40), "swh", Some("1"), "48"),
        entry(290, None, "swh", Some("1"), "24"),
    ]
}

#[test]
fn index_query_matches_fields_members_and_steps() {
    let query = ECMWFIndexQuery {
        fields: vec![ECMWFField::SignificantHeight],
        members: MemberSelection::Only(vec![1]),
        steps: Some(vec!["24".to_string()]),
    };
    let e = entries();
    assert!(query.matches(&e[0]));
    assert!(!query.matches(&e[1])); // another field
    assert!(!query.matches(&e[2])); // another member
    assert!(query.matches(&e[3])); // no member number: always kept
    assert!(!query.matches(&e[4])); // another step
    // in file order, entries without a length left out
    assert_eq!(
        query.select(&e),
        vec![ByteRange { offset: 0, length: 100 }, ByteRange { offset: 220, length: 30 }]
    );
}

#[test]
fn open_index_query_keeps_everything_and_coalesces() {
    let query = ECMWFIndexQuery { fields: vec![], members: MemberSelection::All, steps: None };
    let e = entries();
    assert!(e.iter().all(|x| query.matches(x)));
    assert_eq!(query.select(&e).len(), 5);
    // adjacent messages merge into one request
    assert_eq!(query.select_coalesced(&e), vec![ByteRange { offset: 0, length: 290 }]);
}

#[test]
fn index_query_member_numbers_must_read_as_u8() {
    let query = ECMWFIndexQuery {
        fields: vec![],
        members: MemberSelection::Only(vec![1]),
        steps: None,
    };
    assert!(!query.matches(&entry(0, Some(1), "swh", Some("one"), "24")));
    assert!(!query.matches(&entry(0, Some(1), "swh", Some("257"), "24")));
    assert!(query.matches(&entry(0, Some(1), "swh", Some("01"), "24")));
}
