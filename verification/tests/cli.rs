use arkanoid::cli::{parse_args, Args};

fn parse_of(argv: &[&str]) -> Args {
    let words: Vec<String> = argv.iter().map(|s| s.to_string()).collect();
    parse_args(&words)
}

#[test]
fn parse_of_empty_args_does_not_panic() {
    assert_eq!(parse_of(&[]).levelset, None);
}

#[test]
fn parse_recognizes_levelset_flag_with_its_value() {
    let args = parse_of(&["--levelset", "levels/custom.lbl"]);
    assert_eq!(args.levelset.as_deref(), Some("levels/custom.lbl"));
}

#[test]
fn parse_ignores_unknown_flags() {
    assert_eq!(parse_of(&["--bogus", "x"]).levelset, None);
}

#[test]
fn parse_of_levelset_with_no_following_value_leaves_it_none() {
    assert_eq!(parse_of(&["--levelset"]).levelset, None);
}

#[test]
fn every_flag_takes_the_word_after_it() {
    let args = parse_of(&["--assets", "pack", "x", "--renderer", "3d", "--levelset", "a.lbl"]);
    assert_eq!(args.assets.as_deref(), Some("pack"));
    assert_eq!(args.renderer.as_deref(), Some("3d"));
    assert_eq!(args.levelset.as_deref(), Some("a.lbl"));
    assert!(args.wants_3d());
}

#[test]
fn a_value_may_look_like_a_flag() {
    let args = parse_of(&["--levelset", "--assets", "pack"]);
    assert_eq!(args.levelset.as_deref(), Some("--assets"));
    assert_eq!(args.assets, None);
}

#[test]
fn the_last_of_two_equal_flags_wins_even_without_a_value() {
    let args = parse_of(&["--levelset", "a", "--levelset", "b"]);
    assert_eq!(args.levelset.as_deref(), Some("b"));
    let args = parse_of(&["--levelset", "a", "--levelset"]);
    assert_eq!(args.levelset, None);
}

#[test]
fn words_that_are_no_flag_change_nothing() {
    let args = parse_of(&["levelset", "-levelset", "--Levelset", ""]);
    assert_eq!(args.levelset, None);
    assert_eq!(args.assets, None);
    assert_eq!(args.renderer, None);
    assert!(!args.wants_3d());
}

#[test]
fn only_3d_asks_for_the_view_in_depth() {
    assert!(!parse_of(&["--renderer", "2d"]).wants_3d());
    assert!(!parse_of(&["--renderer", "3D"]).wants_3d());
    assert!(parse_of(&["--renderer", "3d"]).wants_3d());
}
