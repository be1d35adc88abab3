use snake3d::hud::score_text;

#[test]
fn score_text_of_small_scores() {
    assert_eq!(score_text(0), "Score: 0");
    assert_eq!(score_text(1), "Score: 1");
    assert_eq!(score_text(9), "Score: 9");
    assert_eq!(score_text(10), "Score: 10");
    assert_eq!(score_text(11), "Score: 11");
    assert_eq!(score_text(100), "Score: 100");
    assert_eq!(score_text(12345), "Score: 12345");
    assert_eq!(score_text(9080706), "Score: 9080706");
}

#[test]
fn score_text_at_the_limits() {
    assert_eq!(score_text(i32::MAX), "Score: 2147483647");
    assert_eq!(score_text(i32::MIN), "Score: -2147483648");
    assert_eq!(score_text(-1), "Score: -1");
    assert_eq!(score_text(-40), "Score: -40");
}

#[test]
fn score_text_agrees_with_the_formatter() {
    for score in -1200..1200 {
        assert_eq!(score_text(score), format!("Score: {}", score));
    }
}
