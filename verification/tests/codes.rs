use iceblink_sync::models::codes::{edit_plan, Code, CodeStore, Column, StoreError, ID_LENGTH};

const USER1: &str = "user-1";
const USER2: &str = "user-2";

fn entry(id: &str, owner: &str, content: &str, name: &str, website: Option<&str>) -> Code {
    Code {
        id: id.to_string(),
        owner_id: owner.to_string(),
        content: content.to_string(),
        display_name: name.to_string(),
        icon_url: None,
        website_url: website.map(|w| w.to_string()),
    }
}

fn same(a: &Code, b: &Code) -> bool {
    a.id == b.id
        && a.owner_id == b.owner_id
        && a.content == b.content
        && a.display_name == b.display_name
        && a.icon_url == b.icon_url
        && a.website_url == b.website_url
}

/// Two entries of the first user and one of the second.
fn fixtures() -> CodeStore {
    let mut store = CodeStore::new();
    entry("Ckq8ynHxSZMaPs4h", USER1, "otpauth://totp/a?secret=AAAA", "Google", Some("google.com"))
        .insert(&mut store)
        .unwrap();
    entry("v4OqGSDWx0cMkAHF", USER2, "otpauth://totp/b?secret=BBBB", "GitHub", Some("github.com"))
        .insert(&mut store)
        .unwrap();
    entry("jW1mGzgPXYC3eK0b", USER1, "otpauth://totp/c?secret=CCCC", "google.com", Some("google.com"))
        .insert(&mut store)
        .unwrap();
    store
}

#[test]
fn list_own_codes() {
    let store = fixtures();

    let u1 = Code::get_many(&store, USER1.to_string());
    assert_eq!(u1.len(), 2);
    for code in u1.iter() {
        assert_eq!(code.owner_id, USER1);
    }

    let u2 = Code::get_many(&store, USER2.to_string());
    assert_eq!(u2.len(), 1);
    for code in u2.iter() {
        assert_eq!(code.owner_id, USER2);
    }
}

#[test]
fn add_codes() {
    let mut store = fixtures();

    let added = Code::create(
        &mut store,
        "0123456789abcdef".to_string(),
        USER1.to_string(),
        "garbage".to_string(),
        "Permafrost".to_string(),
        None,
        None,
    )
    .unwrap();
    assert_eq!(added.content, "garbage");
    assert_eq!(added.display_name, "Permafrost");
    assert_eq!(added.icon_url, None);
    assert_eq!(added.website_url, None);
    assert_eq!(added.owner_id, USER1);
    assert_eq!(added.id.len(), 16);

    let after = Code::get_many(&store, USER1.to_string());
    assert_eq!(after.len(), 3);
    assert_eq!(after[0].id, "Ckq8ynHxSZMaPs4h");
    assert_eq!(after[0].display_name, "Google");
    assert_eq!(after[0].icon_url, None);
    assert_eq!(after[0].website_url, Some("google.com".to_string()));
    assert_eq!(after[1].id, "jW1mGzgPXYC3eK0b");
    assert_eq!(after[1].display_name, "google.com");
    assert_eq!(after[1].website_url, Some("google.com".to_string()));
    assert!(same(&after[2], &added));

    let u2 = Code::get_many(&store, USER2.to_string());
    assert_eq!(u2.len(), 1);
    assert_eq!(u2[0].id, "v4OqGSDWx0cMkAHF");
}

#[test]
fn new_store_is_empty() {
    let store = CodeStore::new();
    assert_eq!(store.len(), 0);
    assert!(Code::get_many(&store, USER1.to_string()).is_empty());
}

#[test]
fn get_is_scoped_by_owner() {
    let store = fixtures();
    let found = Code::get(&store, "Ckq8ynHxSZMaPs4h".to_string(), USER1.to_string()).unwrap();
    assert_eq!(found.display_name, "Google");
    assert_eq!(found.owner_id, USER1);
    assert_eq!(
        Code::get(&store, "Ckq8ynHxSZMaPs4h".to_string(), USER2.to_string()).unwrap_err(),
        StoreError::NotFound
    );
    assert_eq!(
        Code::get(&store, "v4OqGSDWx0cMkAHF".to_string(), USER1.to_string()).unwrap_err(),
        StoreError::NotFound
    );
}

#[test]
fn get_of_unknown_id_is_not_found() {
    let store = fixtures();
    assert_eq!(
        Code::get(&store, "nosuchidnosuchid".to_string(), USER1.to_string()).unwrap_err(),
        StoreError::NotFound
    );
}

#[test]
fn every_entry_is_hidden_from_every_other_user() {
    let store = fixtures();
    for owner in [USER1, USER2] {
        for code in Code::get_many(&store, owner.to_string()) {
            for other in [USER1, USER2, "user-3", ""] {
                let r = Code::get(&store, code.id.clone(), other.to_string());
                if other == owner {
                    assert!(same(&r.unwrap(), &code));
                } else {
                    assert_eq!(r.unwrap_err(), StoreError::NotFound);
                }
            }
        }
    }
}

#[test]
fn list_keeps_insertion_order() {
    let mut store = CodeStore::new();
    for id in ["zzzzzzzzzzzzzzzz", "aaaaaaaaaaaaaaaa", "mmmmmmmmmmmmmmmm"] {
        entry(id, USER1, "c", "n", None).insert(&mut store).unwrap();
    }
    let ids: Vec<String> = Code::get_many(&store, USER1.to_string()).into_iter().map(|c| c.id).collect();
    assert_eq!(ids, vec!["zzzzzzzzzzzzzzzz", "aaaaaaaaaaaaaaaa", "mmmmmmmmmmmmmmmm"]);
}

#[test]
fn insert_refuses_an_id_twice() {
    let mut store = fixtures();
    let clash = entry("Ckq8ynHxSZMaPs4h", USER2, "x", "y", None);
    assert_eq!(clash.insert(&mut store).unwrap_err(), StoreError::Conflict);
    assert_eq!(store.len(), 3);
    assert_eq!(Code::get_many(&store, USER2.to_string()).len(), 1);
}

#[test]
fn create_checks_the_length_of_the_id() {
    let mut store = CodeStore::new();
    assert_eq!(ID_LENGTH, 16);
    for bad in ["", "short", "0123456789abcde", "0123456789abcdefg"] {
        let r = Code::create(
            &mut store,
            bad.to_string(),
            USER1.to_string(),
            "c".to_string(),
            "n".to_string(),
            None,
            None,
        );
        assert_eq!(r.unwrap_err(), StoreError::InvalidId);
    }
    assert_eq!(store.len(), 0);
}

#[test]
fn create_counts_characters_not_bytes() {
    let mut store = CodeStore::new();
    let id = "ääääääääöööööööö".to_string();
    assert_eq!(id.chars().count(), 16);
    let code = Code::create(&mut store, id.clone(), USER1.to_string(), "c".to_string(), "n".to_string(), None, None)
        .unwrap();
    assert_eq!(code.id, id);
}

#[test]
fn create_refuses_an_id_in_use() {
    let mut store = fixtures();
    let r = Code::create(
        &mut store,
        "v4OqGSDWx0cMkAHF".to_string(),
        USER1.to_string(),
        "c".to_string(),
        "n".to_string(),
        None,
        None,
    );
    assert_eq!(r.unwrap_err(), StoreError::Conflict);
    assert_eq!(store.len(), 3);
}

#[test]
fn create_stores_what_it_returns() {
    let mut store = CodeStore::new();
    let made = Code::create(
        &mut store,
        "0123456789abcdef".to_string(),
        USER1.to_string(),
        "abc".to_string(),
        "X".to_string(),
        Some("https://x.example/icon.png".to_string()),
        Some("x.example".to_string()),
    )
    .unwrap();
    let stored = Code::get(&store, "0123456789abcdef".to_string(), USER1.to_string()).unwrap();
    assert!(same(&made, &stored));
    assert_eq!(stored.icon_url, Some("https://x.example/icon.png".to_string()));
    assert_eq!(stored.website_url, Some("x.example".to_string()));
}

#[test]
fn delete_removes_only_the_owners_entry() {
    let mut store = fixtures();
    let foreign = entry("Ckq8ynHxSZMaPs4h", USER2, "", "", None);
    assert_eq!(foreign.delete(&mut store).unwrap_err(), StoreError::NotFound);
    assert_eq!(store.len(), 3);

    let own = Code::get(&store, "Ckq8ynHxSZMaPs4h".to_string(), USER1.to_string()).unwrap();
    own.delete(&mut store).unwrap();
    assert_eq!(store.len(), 2);
    assert_eq!(
        Code::get(&store, "Ckq8ynHxSZMaPs4h".to_string(), USER1.to_string()).unwrap_err(),
        StoreError::NotFound
    );
    assert_eq!(own.delete(&mut store).unwrap_err(), StoreError::NotFound);
    assert_eq!(Code::get_many(&store, USER1.to_string()).len(), 1);
    assert_eq!(Code::get_many(&store, USER2.to_string()).len(), 1);
}

#[test]
fn edit_replaces_only_the_supplied_fields() {
    let mut store = fixtures();
    let mut code = Code::get(&store, "Ckq8ynHxSZMaPs4h".to_string(), USER1.to_string()).unwrap();
    {
        let edited = code
            .edit(&mut store, None, Some("Mail".to_string()), Some("https://g.example/i.png".to_string()), None)
            .unwrap();
        assert_eq!(edited.display_name, "Mail");
    }
    assert_eq!(code.id, "Ckq8ynHxSZMaPs4h");
    assert_eq!(code.owner_id, USER1);
    assert_eq!(code.content, "otpauth://totp/a?secret=AAAA");
    assert_eq!(code.display_name, "Mail");
    assert_eq!(code.icon_url, Some("https://g.example/i.png".to_string()));
    assert_eq!(code.website_url, Some("google.com".to_string()));
    let stored = Code::get(&store, "Ckq8ynHxSZMaPs4h".to_string(), USER1.to_string()).unwrap();
    assert!(same(&stored, &code));
    let other = Code::get(&store, "jW1mGzgPXYC3eK0b".to_string(), USER1.to_string()).unwrap();
    assert_eq!(other.display_name, "google.com");
}

#[test]
fn edit_without_fields_changes_nothing() {
    let mut store = fixtures();
    let before = Code::get(&store, "jW1mGzgPXYC3eK0b".to_string(), USER1.to_string()).unwrap();
    let mut code = before.clone();
    code.edit(&mut store, None, None, None, None).unwrap();
    assert!(same(&code, &before));
    let stored = Code::get(&store, "jW1mGzgPXYC3eK0b".to_string(), USER1.to_string()).unwrap();
    assert!(same(&stored, &before));
    assert_eq!(store.len(), 3);
}

#[test]
fn edit_without_fields_needs_no_write() {
    let mut store = fixtures();
    store.fail_after(0);
    let mut code = Code::get(&store, "jW1mGzgPXYC3eK0b".to_string(), USER1.to_string()).unwrap();
    assert!(code.edit(&mut store, None, None, None, None).is_ok());
}

#[test]
fn edit_of_a_foreign_entry_is_not_found() {
    let mut store = fixtures();
    let mut forged = entry("Ckq8ynHxSZMaPs4h", USER2, "", "", None);
    let r = forged.edit(&mut store, Some("stolen".to_string()), None, None, None).map(|c| c.clone());
    assert_eq!(r.unwrap_err(), StoreError::NotFound);
    let stored = Code::get(&store, "Ckq8ynHxSZMaPs4h".to_string(), USER1.to_string()).unwrap();
    assert_eq!(stored.content, "otpauth://totp/a?secret=AAAA");
}

#[test]
fn edit_with_a_failing_later_field_keeps_everything() {
    for accepted in 0..4u64 {
        let mut store = fixtures();
        let before = Code::get(&store, "Ckq8ynHxSZMaPs4h".to_string(), USER1.to_string()).unwrap();
        let mut code = before.clone();
        store.fail_after(accepted);
        let r = code
            .edit(
                &mut store,
                Some("new content".to_string()),
                Some("new name".to_string()),
                Some("new icon".to_string()),
                Some("new site".to_string()),
            )
            .map(|c| c.clone());
        assert_eq!(r.unwrap_err(), StoreError::Fault);
        assert!(same(&code, &before));
        let stored = Code::get(&store, "Ckq8ynHxSZMaPs4h".to_string(), USER1.to_string()).unwrap();
        assert!(same(&stored, &before));
    }
}

#[test]
fn edit_succeeds_when_the_storage_takes_every_write() {
    let mut store = fixtures();
    let mut code = Code::get(&store, "Ckq8ynHxSZMaPs4h".to_string(), USER1.to_string()).unwrap();
    store.fail_after(4);
    code.edit(
        &mut store,
        Some("new content".to_string()),
        Some("new name".to_string()),
        Some("new icon".to_string()),
        Some("new site".to_string()),
    )
    .unwrap();
    assert_eq!(code.content, "new content");
    assert_eq!(code.website_url, Some("new site".to_string()));
    // the four writes are used up
    let next = entry("0000000000000000", USER1, "c", "n", None);
    assert_eq!(next.insert(&mut store).unwrap_err(), StoreError::Fault);
    store.heal();
    next.insert(&mut store).unwrap();
    assert_eq!(store.len(), 4);
}

#[test]
fn insert_and_delete_report_a_refused_write() {
    let mut store = fixtures();
    store.fail_after(0);
    let fresh = entry("0000000000000000", USER1, "c", "n", None);
    assert_eq!(fresh.insert(&mut store).unwrap_err(), StoreError::Fault);
    let own = Code::get(&store, "Ckq8ynHxSZMaPs4h".to_string(), USER1.to_string()).unwrap();
    assert_eq!(own.delete(&mut store).unwrap_err(), StoreError::Fault);
    assert_eq!(store.len(), 3);
    store.heal();
    own.delete(&mut store).unwrap();
    assert_eq!(store.len(), 2);
}

#[test]
fn conflict_and_not_found_come_before_a_refused_write() {
    let mut store = fixtures();
    store.fail_after(0);
    let clash = entry("Ckq8ynHxSZMaPs4h", USER1, "c", "n", None);
    assert_eq!(clash.insert(&mut store).unwrap_err(), StoreError::Conflict);
    let missing = entry("nosuchidnosuchid", USER1, "c", "n", None);
    assert_eq!(missing.delete(&mut store).unwrap_err(), StoreError::NotFound);
}

#[test]
fn clone_copies_every_field() {
    let code = Code {
        id: "Ckq8ynHxSZMaPs4h".to_string(),
        owner_id: USER1.to_string(),
        content: "c".to_string(),
        display_name: "n".to_string(),
        icon_url: Some("i".to_string()),
        website_url: None,
    };
    assert!(same(&code.clone(), &code));
}

#[test]
fn new_checks_the_length_of_the_id() {
    let made = Code::new(
        "0123456789abcdef".to_string(),
        USER1.to_string(),
        "abc".to_string(),
        "X".to_string(),
        None,
        Some("x.example".to_string()),
    )
    .unwrap();
    assert_eq!(made.id, "0123456789abcdef");
    assert_eq!(made.owner_id, USER1);
    assert_eq!(made.content, "abc");
    assert_eq!(made.display_name, "X");
    assert_eq!(made.icon_url, None);
    assert_eq!(made.website_url, Some("x.example".to_string()));
    for bad in ["", "0123456789abcde", "0123456789abcdef0"] {
        let r = Code::new(bad.to_string(), USER1.to_string(), String::new(), String::new(), None, None);
        assert_eq!(r.unwrap_err(), StoreError::InvalidId);
    }
}

#[test]
fn apply_replaces_the_supplied_fields() {
    let mut code = entry("Ckq8ynHxSZMaPs4h", USER1, "c", "n", Some("w"));
    code.apply(Some("c2".to_string()), None, Some("i2".to_string()), None);
    assert_eq!(code.id, "Ckq8ynHxSZMaPs4h");
    assert_eq!(code.owner_id, USER1);
    assert_eq!(code.content, "c2");
    assert_eq!(code.display_name, "n");
    assert_eq!(code.icon_url, Some("i2".to_string()));
    assert_eq!(code.website_url, Some("w".to_string()));
    code.apply(None, Some("n2".to_string()), None, Some("w2".to_string()));
    assert_eq!(code.content, "c2");
    assert_eq!(code.display_name, "n2");
    assert_eq!(code.icon_url, Some("i2".to_string()));
    assert_eq!(code.website_url, Some("w2".to_string()));
    let before = code.clone();
    code.apply(None, None, None, None);
    assert!(same(&code, &before));
}

#[test]
fn edit_plan_lists_the_supplied_fields_in_order() {
    assert!(edit_plan(&None, &None, &None, &None).is_empty());
    let plan = edit_plan(&Some("c".to_string()), &None, &Some("i".to_string()), &Some("w".to_string()));
    let listed: Vec<(Column, &str)> = plan.iter().map(|w| (w.column, w.value.as_str())).collect();
    assert_eq!(listed, vec![(Column::Content, "c"), (Column::IconUrl, "i"), (Column::WebsiteUrl, "w")]);
    let plan = edit_plan(
        &Some("c".to_string()),
        &Some("n".to_string()),
        &Some("i".to_string()),
        &Some("w".to_string()),
    );
    let columns: Vec<Column> = plan.iter().map(|w| w.column).collect();
    assert_eq!(columns, vec![Column::Content, Column::DisplayName, Column::IconUrl, Column::WebsiteUrl]);
    let plan = edit_plan(&None, &Some(String::new()), &None, &None);
    assert_eq!(plan.len(), 1);
    assert_eq!(plan[0].column, Column::DisplayName);
    assert_eq!(plan[0].value, "");
}

#[test]
fn columns_have_the_names_of_the_table() {
    assert_eq!(Column::Content.name(), "content");
    assert_eq!(Column::DisplayName.name(), "display_name");
    assert_eq!(Column::IconUrl.name(), "icon_url");
    assert_eq!(Column::WebsiteUrl.name(), "website_url");
}

#[test]
fn edit_spends_one_write_for_each_supplied_field() {
    let mut store = fixtures();
    let mut code = Code::get(&store, "Ckq8ynHxSZMaPs4h".to_string(), USER1.to_string()).unwrap();
    store.fail_after(3);
    code.edit(&mut store, Some("a".to_string()), None, Some("b".to_string()), None).unwrap();
    // one write is left
    code.edit(&mut store, None, Some("c".to_string()), None, None).unwrap();
    let r = code.edit(&mut store, None, Some("d".to_string()), None, None).map(|c| c.clone());
    assert_eq!(r.unwrap_err(), StoreError::Fault);
    assert_eq!(code.display_name, "c");
}
