use repo_analyzer::langs::scoring::BlockCommentMatchers;

#[test]
fn find_block_start_reports_matching_pair_index() {
    let m = BlockCommentMatchers::build(&[("/*", "*/"), ("<!--", "-->")]);
    assert_eq!(m.find_block_start("code /* x"), Some((5, 2, 0)));
    assert_eq!(m.find_block_start("code <!-- x"), Some((5, 4, 1)));
}

#[test]
fn block_end_only_accepts_same_pair() {
    let m = BlockCommentMatchers::build(&[("/*", "*/"), ("<!--", "-->")]);
    // A different pair's end token appears before the correct one; it must
    // be skipped so the `/* … */` comment (pair 0) is closed by `*/`.
    let line = "still comment --> not the end */ trailing";
    let star = line.find("*/").unwrap();
    let arrow = line.find("-->").unwrap();
    assert_eq!(
        m.find_block_end_or_nested_start(line, false, 0),
        Some((star, 2, false))
    );
    // For pair 1 the `-->` token is the correct terminator.
    assert_eq!(
        m.find_block_end_or_nested_start(line, false, 1),
        Some((arrow, 3, false))
    );
}

#[test]
fn single_pair_behavior_preserved() {
    let m = BlockCommentMatchers::build(&[("/*", "*/")]);
    assert_eq!(m.find_block_start("a /* b"), Some((2, 2, 0)));
    assert_eq!(
        m.find_block_end_or_nested_start("x */ y", false, 0),
        Some((2, 2, false))
    );
    assert_eq!(
        m.find_block_end_or_nested_start("no terminator here", false, 0),
        None
    );
}

#[test]
fn nested_scan_stays_within_pair() {
    let m = BlockCommentMatchers::build(&[("/*", "*/"), ("<!--", "-->")]);
    // A nested same-pair start deepens the comment.
    assert_eq!(
        m.find_block_end_or_nested_start("inner /* deeper", true, 0),
        Some((6, 2, true))
    );
    // A foreign pair's start is ignored; the same-pair end wins.
    let line = "text <!-- foreign */ end";
    let star = line.find("*/").unwrap();
    assert_eq!(
        m.find_block_end_or_nested_start(line, true, 0),
        Some((star, 2, false))
    );
}
