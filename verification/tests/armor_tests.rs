use madfilter::armor::{armor_base64_text, check_armored_payload, check_decoded_payload};

const ARMORED: &str = "-----BEGIN PGP MESSAGE-----\r\n\r\nwQMBAgPSBAQFBgc=\r\n=1qUZ\r\n-----END PGP MESSAGE-----\r\n";

#[test]
fn armored_minimal_message_is_accepted_in_both_modes() {
    assert!(check_armored_payload(ARMORED, true));
    assert!(check_armored_payload(ARMORED, false));
}

#[test]
fn armor_is_taken_off_down_to_the_base64_text() {
    assert_eq!(armor_base64_text(ARMORED, true), Some("wQMBAgPSBAQFBgc=".to_string()));
}

#[test]
fn text_around_the_armor_is_ignored() {
    let text = format!("some preamble\r\n{}trailer", ARMORED);
    assert!(check_armored_payload(&text, true));
}

#[test]
fn missing_begin_line_is_rejected() {
    let text = "wQMBAgPSBAQFBgc=\r\n=1qUZ\r\n-----END PGP MESSAGE-----\r\n";
    assert!(!check_armored_payload(text, false));
    assert_eq!(armor_base64_text(text, false), None);
}

#[test]
fn missing_end_line_is_rejected() {
    let text = "-----BEGIN PGP MESSAGE-----\r\n\r\nwQMBAgPSBAQFBgc=\r\n=1qUZ\r\n";
    assert!(!check_armored_payload(text, false));
    assert_eq!(armor_base64_text(text, false), None);
}

#[test]
fn end_line_before_begin_line_is_rejected() {
    let text = "-----END PGP MESSAGE-----\r\n-----BEGIN PGP MESSAGE-----\r\n\r\nwQMBAgPSBAQFBgc=\r\n";
    assert!(!check_armored_payload(text, false));
}

#[test]
fn version_comment_is_rejected_in_outgoing_mail() {
    let text = "-----BEGIN PGP MESSAGE-----\r\nVersion: GnuPG v2\r\n\r\nwQMBAgPSBAQFBgc=\r\n=1qUZ\r\n-----END PGP MESSAGE-----\r\n";
    assert!(!check_armored_payload(text, true));
    assert_eq!(armor_base64_text(text, true), None);
}

#[test]
fn version_comment_is_dropped_from_incoming_mail() {
    let text = "-----BEGIN PGP MESSAGE-----\r\nVersion: GnuPG v2\r\n\r\nwQMBAgPSBAQFBgc=\r\n=1qUZ\r\n-----END PGP MESSAGE-----\r\n";
    assert!(check_armored_payload(text, false));
    assert_eq!(armor_base64_text(text, false), Some("wQMBAgPSBAQFBgc=".to_string()));
}

#[test]
fn version_comment_without_line_break_is_rejected() {
    let text = "-----BEGIN PGP MESSAGE-----\nVersion: GnuPG v2\n\nwQMBAgPSBAQFBgc=\n=1qUZ\n-----END PGP MESSAGE-----\n";
    assert!(!check_armored_payload(text, false));
    assert_eq!(armor_base64_text(text, false), None);
}

#[test]
fn bare_line_feeds_are_accepted_without_a_version_comment() {
    let text = "-----BEGIN PGP MESSAGE-----\n\nwQMBAgPSBAQFBgc=\n=1qUZ\n-----END PGP MESSAGE-----\n";
    assert!(check_armored_payload(text, true));
}

#[test]
fn white_space_inside_the_base64_text_is_removed() {
    let text = "-----BEGIN PGP MESSAGE-----\r\n\r\nwQMB AgPS\r\n\tBAQF\u{a0}Bgc=\r\n=1qUZ\r\n-----END PGP MESSAGE-----\r\n";
    assert!(check_armored_payload(text, true));
    assert_eq!(armor_base64_text(text, true), Some("wQMBAgPSBAQFBgc=".to_string()));
}

#[test]
fn only_what_precedes_the_last_equals_sign_is_decoded() {
    // With padding and a checksum, the checksum alone is cut off.
    let text = "-----BEGIN PGP MESSAGE-----\r\n\r\nwQIBAtIEBAUGBw==\r\n=iwEX\r\n-----END PGP MESSAGE-----";
    assert_eq!(armor_base64_text(text, true), Some("wQIBAtIEBAUGBw==".to_string()));
    assert!(check_armored_payload(text, true));
}

#[test]
fn padding_without_a_checksum_is_cut_and_the_text_refused() {
    let text = "-----BEGIN PGP MESSAGE-----\r\n\r\nwQMBAgPSBAQFBgc=\r\n-----END PGP MESSAGE-----";
    assert_eq!(armor_base64_text(text, true), Some("wQMBAgPSBAQFBgc".to_string()));
    assert!(!check_armored_payload(text, true));
}

#[test]
fn unpadded_text_without_a_checksum_is_accepted() {
    let text = "-----BEGIN PGP MESSAGE-----\r\n\r\nwQMBAgPSBQQFBgcI\r\n-----END PGP MESSAGE-----";
    assert_eq!(armor_base64_text(text, true), Some("wQMBAgPSBQQFBgcI".to_string()));
    assert!(check_armored_payload(text, true));
}

#[test]
fn text_that_is_not_base64_is_rejected() {
    let text = "-----BEGIN PGP MESSAGE-----\r\n\r\n!!!not base64!!!\r\n=1qUZ\r\n-----END PGP MESSAGE-----\r\n";
    assert!(!check_armored_payload(text, false));
}

#[test]
fn armored_literal_data_is_rejected() {
    // PKESK followed by a literal data packet.
    let text = "-----BEGIN PGP MESSAGE-----\r\n\r\nwQMBAgPLBAQFBgc=\r\n=s3ER\r\n-----END PGP MESSAGE-----\r\n";
    assert!(!check_armored_payload(text, false));
}

#[test]
fn empty_armor_is_rejected() {
    let text = "-----BEGIN PGP MESSAGE-----\r\n\r\n-----END PGP MESSAGE-----\r\n";
    assert_eq!(armor_base64_text(text, false), Some(String::new()));
    assert!(!check_armored_payload(text, false));
}

#[test]
fn verdict_on_decoded_bytes() {
    assert!(!check_decoded_payload(None));
    assert!(check_decoded_payload(Some(vec![0xC1, 3, 1, 2, 3, 0xD2, 4, 4, 5, 6, 7])));
    assert!(!check_decoded_payload(Some(vec![0xC1, 3, 1, 2, 3])));
    assert!(!check_decoded_payload(Some(vec![])));
}
