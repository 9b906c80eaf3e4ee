use statement_pdf::assets::AssetMap;

#[test]
fn insert_get_and_replace() {
    let mut m = AssetMap::new();
    assert_eq!(m.len(), 0);
    assert_eq!(m.insert("/a.png".to_string(), vec![1]), None);
    assert_eq!(m.insert("/b.png".to_string(), vec![2]), None);
    assert_eq!(m.len(), 2);
    assert_eq!(m.get(&"/a.png".to_string()), Some(&vec![1]));
    assert_eq!(m.insert("/a.png".to_string(), vec![3]), Some(vec![1]));
    assert_eq!(m.len(), 2);
    assert_eq!(m.get(&"/a.png".to_string()), Some(&vec![3]));
    assert_eq!(m.get(&"/b.png".to_string()), Some(&vec![2]));
    assert!(m.contains_key(&"/b.png".to_string()));
    assert!(!m.contains_key(&"/c.png".to_string()));
    assert_eq!(m.get(&"/c.png".to_string()), None);
    let copy = m.clone();
    assert_eq!(
        copy.into_entries(),
        vec![("/a.png".to_string(), vec![3]), ("/b.png".to_string(), vec![2])]
    );
    assert_eq!(AssetMap::default().len(), 0);
}

#[test]
fn entries_come_out_in_path_order() {
    let mut m = AssetMap::new();
    m.insert("b".to_string(), vec![1]);
    m.insert("stamp.png".to_string(), vec![2]);
    m.insert("/stamp.png".to_string(), vec![3]);
    m.insert("a".to_string(), vec![4]);
    m.insert("é".to_string(), vec![5]);
    m.insert("ab".to_string(), vec![6]);
    let keys: Vec<String> = m.into_entries().into_iter().map(|(k, _)| k).collect();
    let mut sorted = keys.clone();
    sorted.sort();
    assert_eq!(keys, sorted);
    assert_eq!(keys, vec!["/stamp.png", "a", "ab", "b", "stamp.png", "é"]);
}
