use std::collections::BTreeMap;

use chrono::NaiveDateTime;
use hoarder::domain::entity::media::{Medium, MediumId};

#[test]
fn medium_default() {
    let actual = Medium::default();

    assert_eq!(actual, Medium {
        id: MediumId::from(0u128),
        sources: Vec::new(),
        tags: BTreeMap::new(),
        replicas: Vec::new(),
        created_at: NaiveDateTime::MIN,
        updated_at: NaiveDateTime::MIN,
    });
}
