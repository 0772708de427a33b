use imgpress::codec::output_name;
use imgpress::config::{Args, PngStripOptions};
use imgpress::naming::format_output;

#[test]
fn default_format_names_output() {
    assert_eq!(format_output("compressed_%s.%e", "photo", "jpg"), "compressed_photo.jpg");
}

#[test]
fn percent_escapes_and_unknown_specifiers() {
    assert_eq!(format_output("100%%_%s", "a", "png"), "100%_a");
    assert_eq!(format_output("%x%s", "a", "png"), "a");
    assert_eq!(format_output("%s.%e%", "a", "png"), "a.png");
    assert_eq!(format_output("", "a", "png"), "");
    assert_eq!(format_output("plain", "a", "png"), "plain");
    assert_eq!(format_output("é%s—%e", "ß", "jpg"), "éß—jpg");
}

#[test]
fn overwrite_uses_the_input_name() {
    let mut args = Args::with_defaults(vec!["*.png".to_string()]);
    assert_eq!(output_name(&args, "pic", "png"), "compressed_pic.png");
    args.overwrite = true;
    assert_eq!(output_name(&args, "pic", "png"), "pic.png");
}

#[test]
fn defaults() {
    let args = Args::with_defaults(vec![]);
    assert_eq!(args.jobs, None);
    assert_eq!(args.output_format, "compressed_%s.%e");
    assert_eq!(args.jpg_quality, 75);
    assert_eq!(args.png_strip, PngStripOptions::Safe);
    assert!(!args.overwrite);
}
