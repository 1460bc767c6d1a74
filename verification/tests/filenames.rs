use prawnloader::sanitize::format_filename;
use prawnloader::sanitize::format_title;
use prawnloader::sanitize::replace_illegal_characters;

#[test]
fn downloader_replaces_invalid_chars() {
    let file_name = "AC/DC - Thunderstruck.mp3";

    assert_eq!(
        "ACDC - Thunderstruck.mp3",
        replace_illegal_characters(file_name)
    );

    let file_name = "<>:\"/\\|?* - Test.mp3";

    assert_eq!(" - Test.mp3", replace_illegal_characters(file_name));
}

#[test]
fn mod_replaces_invalid_chars() {
    let file_name = "AC/DC - Thunderstruck.mp3";

    assert_eq!(
        "ACDC - Thunderstruck.mp3",
        replace_illegal_characters(file_name)
    );

    let file_name = "<>:\"/\\|?* - Test.mp3";

    assert_eq!(" - Test.mp3", replace_illegal_characters(file_name));
}

#[test]
fn sanitize_is_idempotent_on_values() {
    let inputs = [
        "AC/DC - Thunderstruck.mp3",
        "<>:\"/\\|?* - Test.mp3",
        "",
        "plain name",
        "????",
        "a<b>c:d\"e/f\\g|h?i*j",
    ];
    for input in inputs {
        let once = replace_illegal_characters(input);
        let twice = replace_illegal_characters(&once);
        assert_eq!(once, twice);
    }
}

#[test]
fn sanitize_output_has_no_illegal_characters() {
    let denylist = ['<', '>', ':', '"', '/', '\\', '|', '?', '*'];
    let out = replace_illegal_characters("a<b>c:d\"e/f\\g|h?i*j - ok.mp3");
    for c in out.chars() {
        assert!(!denylist.contains(&c));
    }
    assert_eq!("abcdefghij - ok.mp3", out);
}

#[test]
fn formats_track_title() {
    assert_eq!(
        "ACDC - Thunderstruck.mp3",
        format_title("AC/DC", "Thunderstruck")
    );
    assert_eq!(" - .mp3", format_title("", ""));
}

#[test]
fn formats_filename_with_extension() {
    assert_eq!("Intro.mp3", format_filename("Intro", "mp3"));
    assert_eq!("ab.webm", format_filename("a<b", "webm"));
    assert_eq!("chapter one.ogg", format_filename("chapter one", "ogg"));
}
