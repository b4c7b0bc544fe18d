use gh_sync::strategy::{apply, StrategyResult};

#[test]
fn local_none_returns_changed() {
    // Arrange
    let upstream = b"new content";

    // Act
    let result = apply(upstream, None);

    // Assert
    assert!(
        matches!(result, StrategyResult::Changed { ref content } if content == upstream),
        "expected Changed when local is None"
    );
}

#[test]
fn local_differs_returns_changed() {
    let upstream = b"new content";
    let local = b"old content";
    let result = apply(upstream, Some(local));
    assert!(
        matches!(result, StrategyResult::Changed { ref content } if content == upstream),
        "expected Changed when local differs"
    );
}

#[test]
fn local_matches_returns_unchanged() {
    let content = b"same content";
    let result = apply(content, Some(content));
    assert!(
        matches!(result, StrategyResult::Unchanged),
        "expected Unchanged when local matches upstream"
    );
}

#[test]
fn empty_upstream_local_none_returns_changed() {
    let result = apply(b"", None);
    assert!(
        matches!(result, StrategyResult::Changed { ref content } if content.is_empty()),
        "expected Changed with empty content when local is None"
    );
}

#[test]
fn empty_upstream_empty_local_returns_unchanged() {
    let result = apply(b"", Some(b""));
    assert!(
        matches!(result, StrategyResult::Unchanged),
        "expected Unchanged when both upstream and local are empty"
    );
}

#[test]
fn replace_twice_leaves_nothing_to_do() {
    let upstream = b"v2";
    let first = apply(upstream, Some(b"v1"));
    let written = match first {
        StrategyResult::Changed { content } => content,
        StrategyResult::Unchanged => panic!("expected Changed"),
    };
    assert_eq!(written, upstream.to_vec());
    assert!(matches!(apply(upstream, Some(&written)), StrategyResult::Unchanged));
}
