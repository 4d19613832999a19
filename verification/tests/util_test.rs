use chimes_utils::utils::current_timestamp;
use chimes_utils::utils::current_timestamp_secs;
use chimes_utils::utils::file_size_format;
use chimes_utils::utils::generate_rand_numberstring;
use chimes_utils::utils::generate_rand_string;
use chimes_utils::utils::get_hash_value;
use chimes_utils::utils::generate_rand_string_v2;
use chimes_utils::utils::num_to_string;
use chimes_utils::utils::num_to_string_v2;
use chimes_utils::utils::number_to_string;
use chimes_utils::utils::text_insert_br;

#[test]
fn number_strings_use_the_shifted_codec() {
    // the decimal codec is shifted by one: digit d is written as d+1, and
    // nine as zero
    assert_eq!(number_to_string(0), "");
    assert_eq!(number_to_string(-3), "");
    assert_eq!(number_to_string(1), "2");
    assert_eq!(number_to_string(9), "0");
    assert_eq!(number_to_string(10), "21");
    assert_eq!(number_to_string(345), "456");
    assert_eq!(number_to_string(999), "000");
}

#[test]
fn base32_strings_use_the_letter_codec() {
    assert_eq!(num_to_string(0), "");
    assert_eq!(num_to_string(1), "B");
    assert_eq!(num_to_string(25), "2");
    assert_eq!(num_to_string(31), "9");
    assert_eq!(num_to_string(32), "BA");
    assert_eq!(num_to_string(33), "BB");
}

#[test]
fn base56_strings_use_the_mixed_codec() {
    assert_eq!(num_to_string_v2(0), "");
    assert_eq!(num_to_string_v2(1), "b");
    assert_eq!(num_to_string_v2(24), "A");
    assert_eq!(num_to_string_v2(55), "9");
    assert_eq!(num_to_string_v2(56), "ba");
    let s = generate_rand_string_v2(10);
    assert_eq!(s.len(), 10);
    let codec = "abcdefghjklmnpqrstuvwxyzABCDEFGHJKLMNPQRSTUVWXYZ23456789";
    assert!(s.chars().all(|c| codec.contains(c)));
}

#[test]
fn random_number_strings_are_all_digits() {
    let s = generate_rand_numberstring(16);
    assert_eq!(s.len(), 16);
    assert!(s.chars().all(|c| c.is_ascii_digit()));
    let t = generate_rand_numberstring(3);
    assert_eq!(t.len(), 3);
    assert_eq!(generate_rand_numberstring(0), "");
}

#[test]
fn random_strings_use_the_base32_codec() {
    let s = generate_rand_string(12);
    assert_eq!(s.len(), 12);
    let codec = "ABCDEFGHJKLMNOPQRSTUVWXYZ2345789";
    assert!(s.chars().all(|c| codec.contains(c)));
}

#[test]
fn clock_readings_are_after_the_epoch() {
    let secs = current_timestamp_secs();
    assert!(secs > 1_600_000_000);
    let millis = current_timestamp();
    assert!(millis > 1_600_000_000_000);
}

#[test]
fn line_breaks_become_markers() {
    assert_eq!(text_insert_br(None), None);
    assert_eq!(text_insert_br(Some("abc".to_owned())).unwrap(), "abc");
    assert_eq!(text_insert_br(Some("a\nb".to_owned())).unwrap(), "a<br />b");
    assert_eq!(text_insert_br(Some("a\r\nb".to_owned())).unwrap(), "a<br />b");
    assert_eq!(text_insert_br(Some("a\n".to_owned())).unwrap(), "a");
    assert_eq!(text_insert_br(Some("a\n\nb".to_owned())).unwrap(), "a<br /><br />b");
    assert_eq!(text_insert_br(Some(String::new())).unwrap(), "");
    assert_eq!(text_insert_br(Some("\n".to_owned())).unwrap(), "");
}

#[test]
fn sizes_format_with_two_fraction_digits() {
    assert_eq!(file_size_format(0), "0 B");
    assert_eq!(file_size_format(512), "512 B");
    assert_eq!(file_size_format(1023), "1023 B");
    assert_eq!(file_size_format(1024), "1.00KB");
    assert_eq!(file_size_format(1536), "1.50KB");
    assert_eq!(file_size_format(1075), "1.05KB");
    assert_eq!(file_size_format(1048576), "1.00MB");
    assert_eq!(file_size_format(2621440), "2.50MB");
    assert_eq!(file_size_format(1073741824), "1.00GB");
    assert_eq!(file_size_format(10737418240), "10.00GB");
    assert_eq!(file_size_format(1099511627776), "1.00TB");
}

#[test]
fn hash_value_answers_the_first_match_or_empty() {
    let params: Vec<(String, String)> = vec![
        ("a".to_owned(), "1".to_owned()),
        ("b".to_owned(), "2".to_owned()),
        ("a".to_owned(), "3".to_owned()),
    ];
    assert_eq!(get_hash_value(&params, "a"), "1");
    assert_eq!(get_hash_value(&params, "b"), "2");
    assert_eq!(get_hash_value(&params, "c"), "");
}
