use piano_analytics::piano_payload::string_to_ch_ua;

#[test]
fn string_to_chua_vec_single_entry() {
    let input = "Brand;1.0.0";
    let result = string_to_ch_ua(input, false);
    assert_eq!(result.len(), 1);
    assert_eq!(result[0].brand, "Brand");
    assert_eq!(result[0].version, "1");
}

#[test]
fn string_to_chua_vec_multiple_entries() {
    let input = "Brand1;1.0.0|Brand2;2.0.0";
    let result = string_to_ch_ua(input, false);
    assert_eq!(result.len(), 2);
    assert_eq!(result[0].brand, "Brand1");
    assert_eq!(result[0].version, "1");
    assert_eq!(result[1].brand, "Brand2");
    assert_eq!(result[1].version, "2");
}

#[test]
fn string_to_chua_vec_empty_string() {
    let input = "";
    let result = string_to_ch_ua(input, false);
    assert!(result.is_empty());
}

#[test]
fn string_to_chua_vec_invalid_format() {
    let input = "InvalidFormat";
    let result = string_to_ch_ua(input, false);
    assert!(result.is_empty());
}

#[test]
fn string_to_chua_vec_partial_invalid_format() {
    let input = "Brand1;1.0.0|InvalidFormat";
    let result = string_to_ch_ua(input, false);
    assert_eq!(result.len(), 1);
    assert_eq!(result[0].brand, "Brand1");
    assert_eq!(result[0].version, "1");
}

#[test]
fn string_to_chua_vec_partial_invalid_format2() {
    let input = "Brand1;1,0.0|InvalidFormat";
    let result = string_to_ch_ua(input, false);
    assert_eq!(result.len(), 1);
    assert_eq!(result[0].brand, "Brand1");
    assert_eq!(result[0].version, "1,0");
}

#[test]
fn string_to_chua_vec_partial_invalid_format3() {
    let input = "Brand1:1,0.0|Bar;foo";
    let result = string_to_ch_ua(input, false);
    assert_eq!(result.len(), 1);
    assert_eq!(result[0].brand, "Bar");
    assert_eq!(result[0].version, "foo");
}

#[test]
fn string_to_chua_vec_partial_invalid_format4() {
    let input = "Brand1:1,0.0|Bar;foo|";
    let result = string_to_ch_ua(input, false);
    assert_eq!(result.len(), 1);
    assert_eq!(result[0].brand, "Bar");
    assert_eq!(result[0].version, "foo");
}

#[test]
fn string_to_chua_vec_single_entry_full() {
    let input = "Brand;1.0.0";
    let result = string_to_ch_ua(input, true);
    assert_eq!(result.len(), 1);
    assert_eq!(result[0].brand, "Brand");
    assert_eq!(result[0].version, "1.0.0");
}

#[test]
fn string_to_chua_vec_multiple_entries_full() {
    let input = "Brand1;1.0.0|Brand2;2.0.0";
    let result = string_to_ch_ua(input, true);
    assert_eq!(result.len(), 2);
    assert_eq!(result[0].brand, "Brand1");
    assert_eq!(result[0].version, "1.0.0");
    assert_eq!(result[1].brand, "Brand2");
    assert_eq!(result[1].version, "2.0.0");
}
