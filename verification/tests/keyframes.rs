use librcut::{find_closest_keyframes, match_point, CutError, KeyframeMatch, Role};

/// Test if keyframes are properly searched
#[test]
fn find_outer_keyframes_test() {
    let keyframes = vec![0, 2_000_000, 4_000_000, 6_000_000, 8_000_000];

    assert_eq!(
        find_closest_keyframes(&keyframes, (Some(1_500_000), Some(2_500_000))).unwrap(),
        (
            KeyframeMatch::Between(0, 1_500_000, 2_000_000),
            KeyframeMatch::Between(2_000_000, 2_500_000, 4_000_000),
        )
    );

    assert_eq!(
        find_closest_keyframes(&keyframes, (Some(2_500_000), Some(2_500_000))).unwrap(),
        (
            KeyframeMatch::Between(2_000_000, 2_500_000, 4_000_000),
            KeyframeMatch::Between(2_000_000, 2_500_000, 4_000_000),
        )
    );

    assert_eq!(
        find_closest_keyframes(&keyframes, (Some(2_000_000), Some(2_500_000))).unwrap(),
        (
            KeyframeMatch::Exact(2_000_000),
            KeyframeMatch::Between(2_000_000, 2_500_000, 4_000_000),
        )
    );

    assert_eq!(
        find_closest_keyframes(&keyframes, (Some(1_500_000), Some(2_000_000))).unwrap(),
        (
            KeyframeMatch::Between(0, 1_500_000, 2_000_000),
            KeyframeMatch::Exact(2_000_000),
        )
    );

    // an open end is the boundary of the sequence
    assert_eq!(
        find_closest_keyframes(&keyframes, (None, None)).unwrap(),
        (
            KeyframeMatch::Boundary(0),
            KeyframeMatch::Boundary(8_000_000),
        )
    );

    assert_eq!(
        find_closest_keyframes(&keyframes, (Some(1_500_000), None)).unwrap(),
        (
            KeyframeMatch::Between(0, 1_500_000, 2_000_000),
            KeyframeMatch::Boundary(8_000_000),
        )
    );

    assert_eq!(
        find_closest_keyframes(&keyframes, (None, Some(1_500_000))).unwrap(),
        (
            KeyframeMatch::Boundary(0),
            KeyframeMatch::Between(0, 1_500_000, 2_000_000),
        )
    );
}

#[test]
fn match_point_without_target_is_boundary() {
    let keyframes = vec![0, 2_000_000, 4_000_000, 6_000_000, 8_000_000];
    assert_eq!(match_point(&keyframes, None, Role::Start), Ok(KeyframeMatch::Boundary(0)));
    assert_eq!(match_point(&keyframes, None, Role::End), Ok(KeyframeMatch::Boundary(8_000_000)));
}

#[test]
fn match_point_outside_fails() {
    let keyframes = vec![5_000_000, 7_000_000];
    assert_eq!(
        match_point(&keyframes, Some(1_000_000), Role::Start),
        Err(CutError::NoBracketingKeyframe { role: Role::Start, target: Some(1_000_000) })
    );
}
