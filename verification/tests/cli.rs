use polypeek_core::cli::{source_from_args, Source};

fn args(list: &[&str]) -> Vec<String> {
    list.iter().map(|s| s.to_string()).collect()
}

#[test]
fn no_argument_asks_for_usage() {
    assert_eq!(source_from_args(&args(&["polypeek"])), Source::Usage);
    assert_eq!(source_from_args(&args(&[])), Source::Usage);
}

#[test]
fn help_asks_for_usage() {
    assert_eq!(source_from_args(&args(&["polypeek", "--help"])), Source::Usage);
    assert_eq!(source_from_args(&args(&["polypeek", "-h", "x"])), Source::Usage);
}

#[test]
fn dash_reads_stdin() {
    assert_eq!(source_from_args(&args(&["polypeek", "-"])), Source::Stdin);
}

#[test]
fn other_argument_names_a_file() {
    assert_eq!(
        source_from_args(&args(&["polypeek", "notes.txt"])),
        Source::File("notes.txt".to_string())
    );
    assert_eq!(
        source_from_args(&args(&["polypeek", "--"])),
        Source::File("--".to_string())
    );
}
