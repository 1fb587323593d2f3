use polysynth::endpoint::{parse_node_name, EndpointError};

#[test]
fn name_without_channel_defaults_to_zero() {
    assert_eq!(parse_node_name("osc1"), Ok(("osc1".to_string(), 0)));
}

#[test]
fn name_with_channel() {
    assert_eq!(parse_node_name("mux:1"), Ok(("mux".to_string(), 1)));
    assert_eq!(parse_node_name("mux:0"), Ok(("mux".to_string(), 0)));
    assert_eq!(parse_node_name("mix:12"), Ok(("mix".to_string(), 12)));
}

#[test]
fn channel_may_have_plus_sign_and_leading_zeros() {
    assert_eq!(parse_node_name("a:+7"), Ok(("a".to_string(), 7)));
    assert_eq!(parse_node_name("a:007"), Ok(("a".to_string(), 7)));
}

#[test]
fn empty_name_is_a_name() {
    assert_eq!(parse_node_name(""), Ok((String::new(), 0)));
    assert_eq!(parse_node_name(":3"), Ok((String::new(), 3)));
}

#[test]
fn nothing_after_colon_is_missing_channel() {
    assert_eq!(parse_node_name("mux:"), Err(EndpointError::MissingChannel));
}

#[test]
fn non_digits_are_invalid_channel() {
    assert_eq!(parse_node_name("mux:x"), Err(EndpointError::InvalidChannel));
    assert_eq!(parse_node_name("mux:+"), Err(EndpointError::InvalidChannel));
    assert_eq!(parse_node_name("mux:-1"), Err(EndpointError::InvalidChannel));
    assert_eq!(parse_node_name("mux:1 "), Err(EndpointError::InvalidChannel));
    assert_eq!(parse_node_name("a:b:c"), Err(EndpointError::InvalidChannel));
    assert_eq!(parse_node_name("a:1:2"), Err(EndpointError::InvalidChannel));
}

#[test]
fn too_large_channel_overflows() {
    assert_eq!(
        parse_node_name("mux:99999999999999999999999999"),
        Err(EndpointError::ChannelOverflow)
    );
    let max = format!("m:{}", usize::MAX);
    assert_eq!(parse_node_name(&max), Ok(("m".to_string(), usize::MAX)));
    let over = format!("m:{}0", usize::MAX);
    assert_eq!(parse_node_name(&over), Err(EndpointError::ChannelOverflow));
}

#[test]
fn name_may_hold_any_characters_but_colon() {
    assert_eq!(parse_node_name("öl-1:2"), Ok(("öl-1".to_string(), 2)));
}
