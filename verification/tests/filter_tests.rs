use chatterlog::filter::{get_category, include_category, Filter, FilterMode};
use chatterlog::str_ext::WStrExt;

fn units(s: &str) -> Vec<u16> {
    s.encode_utf16().collect()
}

#[test]
fn has_category() {
    for (line, cat) in [
        ("chatterino.irc: hey", "irc"),
        ("chatterino.http: hey", "http"),
        ("chatterino.seventv.xd: hey", "seventv.xd"),
        ("chatterino.irc: hey", "irc"),
        ("chatterino.irc:lol", "irc"),
        ("chatterino.:lol", ""),
    ] {
        assert_eq!(get_category(&units(line)), Some(units(cat)));
    }
}

#[test]
fn no_category() {
    for line in [
        "chatterino.irc",
        "chatterino: hey",
        "libpng warning: invalid xd",
        "qt.irc: hey",
        "",
    ] {
        assert_eq!(get_category(&units(line)), None);
    }
}

fn irc_http() -> Vec<Vec<u16>> {
    vec![units("irc"), units("http")]
}

#[test]
fn include_mode() {
    let filters = irc_http();

    for cat in ["irc", "http"] {
        assert!(include_category(&units(cat), FilterMode::Include, &filters));
    }

    for cat in ["seventv", "bttv", "twitch", ""] {
        assert!(!include_category(&units(cat), FilterMode::Include, &filters));
    }
}

#[test]
fn exclude() {
    let filters = irc_http();

    for cat in ["irc", "http"] {
        assert!(!include_category(&units(cat), FilterMode::Exclude, &filters));
    }

    for cat in ["seventv", "bttv", "twitch", ""] {
        assert!(include_category(&units(cat), FilterMode::Exclude, &filters));
    }
}

#[test]
fn include_mode_forwards_only_the_set() {
    let mut f = Filter {
        mode: FilterMode::Include,
        categories: irc_http(),
        current_category: Vec::new(),
    };
    // Untagged lines before any tag are suppressed under Include.
    assert!(!f.observe(&units("starting up")));
    assert!(f.observe(&units("chatterino.irc: joined")));
    assert!(f.observe(&units("chatterino.http: GET")));
    assert!(!f.observe(&units("chatterino.seventv: emote")));
    assert!(!f.observe(&units("chatterino.bttv: emote")));
    assert!(!f.observe(&units("chatterino.twitch: msg")));
}

#[test]
fn exclude_mode_inverts_tagged_lines() {
    let mut f = Filter {
        mode: FilterMode::Exclude,
        categories: irc_http(),
        current_category: Vec::new(),
    };
    // Untagged lines are always forwarded under Exclude.
    assert!(f.observe(&units("starting up")));
    assert!(!f.observe(&units("chatterino.irc: joined")));
    assert!(!f.observe(&units("chatterino.http: GET")));
    assert!(f.observe(&units("chatterino.seventv: emote")));
    assert!(f.observe(&units("chatterino.bttv: emote")));
    assert!(f.observe(&units("chatterino.twitch: msg")));
}

#[test]
fn sticky_category_continuation() {
    let mut f = Filter {
        mode: FilterMode::Include,
        categories: vec![units("irc")],
        current_category: Vec::new(),
    };
    // A tagged line and its untagged continuation get the same decision.
    assert!(f.observe(&units("chatterino.irc: multi")));
    assert!(f.observe(&units("  line continuation")));
    assert!(!f.observe(&units("chatterino.http: other")));
    assert!(!f.observe(&units("  suppressed continuation")));
}

#[test]
fn default_mode_is_exclude() {
    assert_eq!(FilterMode::default(), FilterMode::Exclude);
}

#[test]
fn should_print_decides_an_explicit_category() {
    let f = Filter {
        mode: FilterMode::Include,
        categories: irc_http(),
        current_category: Vec::new(),
    };
    assert!(f.should_print(&units("irc")));
    assert!(!f.should_print(&units("seventv")));
}

#[test]
fn wide_strings_know_their_prefixes() {
    let line = units("chatterino.irc: hey");
    assert!(line.starts_with(&units("chatterino.")));
    assert!(!line.starts_with(&units("qt.")));
    assert!(line.starts_with(&units("")));
    assert!(!units("ab").starts_with(&units("abc")));
}
