use bullang::ast::{Backend, Rank, Span};

const RANKS: [Rank; 6] = [Rank::War, Rank::Theater, Rank::Battle, Rank::Strategy, Rank::Tactic, Rank::Skirmish];

#[test]
fn rank_names_round_trip() {
    for r in RANKS {
        assert_eq!(Rank::from_str(r.name()), Some(r));
    }
    assert_eq!(Rank::from_str("general"), None);
}

#[test]
fn child_rank_is_one_level_down() {
    for i in 0..5 {
        assert_eq!(RANKS[i].child_rank(), Some(RANKS[i + 1]));
    }
    assert_eq!(Rank::Skirmish.child_rank(), None);
    assert!(Rank::Skirmish.has_own_files());
    assert!(!Rank::Skirmish.has_sub_folders());
    assert!(Rank::War.has_sub_folders());
}

#[test]
fn backend_from_ext_known() {
    assert!(matches!(Backend::from_ext("rs"), Some(Backend::Rust)));
    assert!(matches!(Backend::from_ext("cxx"), Some(Backend::Cpp)));
    assert!(matches!(Backend::from_ext("cc"), Some(Backend::Cpp)));
    assert!(Backend::from_ext("zz").is_none());
}

#[test]
fn backend_ext_round_trip() {
    for b in [Backend::Rust, Backend::Python, Backend::C, Backend::Cpp, Backend::Go] {
        let name = b.name();
        let back = Backend::from_ext(b.ext()).unwrap();
        assert_eq!(back.name(), name);
    }
    assert_eq!(Backend::Go.name(), "go");
    assert_eq!(Backend::Cpp.ext(), "cpp");
}

#[test]
fn escape_keywords() {
    assert_eq!(Backend::Python.escape_keyword(), "python");
    assert_eq!(Backend::Unknown("zig".to_string()).escape_keyword(), "zig");
}

#[test]
fn spans() {
    let s = Span::new(3, 7);
    assert_eq!((s.line, s.col), (3, 7));
}
