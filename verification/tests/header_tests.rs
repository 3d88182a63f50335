use synacor::headers::HeaderCollection;

#[test]
fn add_and_get() {
    let mut hc = HeaderCollection::new();
    hc.add("Content-Length: 119\r\n").unwrap();
    let value = hc.get("Content-Length").map(|v| v.parse::<usize>());
    assert_eq!(
        value,
        Some(Ok(119)),
        "Should be able to add a header, and then get its value.",
    );
}

#[test]
fn add_without_name() {
    let mut hc = HeaderCollection::new();
    let result = hc.add(": 119\r\n");
    assert_eq!(
        result.map_err(|e| e.message()),
        Err("No header name found in:\n\t: 119\r\n".to_string()),
        "Should not be able to add a header without a name.",
    );
}

#[test]
fn add_without_value() {
    let mut hc = HeaderCollection::new();
    let result = hc.add("Content-Length: \r\n");
    assert_eq!(
        result.map_err(|e| e.message()),
        Err("No header value found in:\n\tContent-Length: \r\n".to_string()),
        "Should not be able to add a header without a value.",
    );
}

#[test]
fn add_twice() {
    let mut hc = HeaderCollection::new();
    hc.add("Content-Length: 119\r\n").unwrap();
    let second_result = hc.add("Content-Length: 197\r\n");
    assert_eq!(
        second_result.map_err(|e| e.message()),
        Err("Header collection already contains key \"Content-Length\"!".to_string()),
        "Should error when trying to add the same header twice.",
    );
}

#[test]
fn clear() {
    let mut hc = HeaderCollection::new();
    hc.add("Content-Length: 119\r\n").unwrap();
    hc.clear();
    assert_eq!(
        hc.get("Content-Length").map(|v| v.parse::<usize>()),
        None
    );
    hc.add("Content-Length: 119\r\n").unwrap();
}
