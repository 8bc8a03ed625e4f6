use ream::lang::ReamSyntax;
use ream::logger::{log_settings, Colour, Level, LevelFilter, Logger};
use ream::syntax_kind::SyntaxKind;

#[test]
fn kinds_are_numbered_in_order() {
    assert_eq!(SyntaxKind::BAD_TOKEN.to_raw(), 0);
    assert_eq!(SyntaxKind::WHITESPACE.to_raw(), 1);
    assert_eq!(SyntaxKind::from_raw(SyntaxKind::ROOT.to_raw()), SyntaxKind::ROOT);
    for raw in 0..=SyntaxKind::ROOT.to_raw() {
        assert_eq!(ReamSyntax::kind_to_raw(ReamSyntax::kind_from_raw(raw)), raw);
    }
}

#[test]
fn log_settings_follow_the_flags() {
    let default = log_settings(false, 0);
    assert_eq!(default.max_level, LevelFilter::Info);
    assert!(!default.warn_quiet_and_verbose && !default.warn_too_verbose);
    assert_eq!(log_settings(true, 0).max_level, LevelFilter::Warn);
    let both = log_settings(true, 1);
    assert_eq!(both.max_level, LevelFilter::Debug);
    assert!(both.warn_quiet_and_verbose);
    assert_eq!(log_settings(false, 2).max_level, LevelFilter::Trace);
    let many = log_settings(true, 3);
    assert_eq!(many.max_level, LevelFilter::Warn);
    assert!(many.warn_too_verbose);
}

#[test]
fn logger_labels_and_levels() {
    assert_eq!(Logger::label(Level::Warn), "warning");
    assert_eq!(Logger::colour(Level::Trace), Colour::Purple);
    assert!(Logger.enabled(Level::Warn, LevelFilter::Warn));
    assert!(!Logger.enabled(Level::Info, LevelFilter::Warn));
    assert!(!Logger.enabled(Level::Error, LevelFilter::Off));
}

#[test]
fn actions_are_padded_to_twelve_columns() {
    assert_eq!(Logger::action_padding("Awa"), 9);
    assert_eq!(Logger::action_padding("Compiling…"), 2);
    assert_eq!(Logger::action_padding("a long action name"), 0);
    assert_eq!(format!("{:>12}", "Awa"), format!("{}{}", " ".repeat(Logger::action_padding("Awa")), "Awa"));
}
