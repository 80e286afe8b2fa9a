use ataraxy::argument::ArgumentError;
use ataraxy::argument::ArgumentValueKind;
use ataraxy::argument::AsCommandArgument;
use ataraxy::argument::AsCommandArgumentValue;
use ataraxy::argument::ChannelId;
use ataraxy::argument::CommandArgumentValue;
use ataraxy::argument::CommandArgumentValueType;
use ataraxy::argument::FetchedChannelKind;
use ataraxy::argument::ResolvedValue;
use ataraxy::argument::RoleId;
use ataraxy::argument::UserId;
use ataraxy::argument::WireNumber;
use ataraxy::argument::guild_channel_filter;
use ataraxy::argument::lookup_to_result;

#[test]
fn required_string_absent_is_missing() {
    let r = <String as AsCommandArgument>::from_returned_argument(None);
    assert!(matches!(r, Err(ArgumentError::IncomingArgumentNotProvided)));
}

#[test]
fn required_integer_absent_is_missing() {
    let r = <i64 as AsCommandArgument>::from_returned_argument(None);
    assert!(matches!(r, Err(ArgumentError::IncomingArgumentNotProvided)));
}

#[test]
fn optional_absent_is_none_without_error() {
    let r = <Option<String> as AsCommandArgument>::from_returned_argument(None);
    assert!(matches!(r, Ok(None)));
    let r = <Option<u8> as AsCommandArgument>::from_returned_argument(None);
    assert!(matches!(r, Ok(None)));
}

#[test]
fn optional_present_coerces_inner() {
    let r = <Option<i64> as AsCommandArgument>::from_returned_argument(Some(
        CommandArgumentValue::Integer(17),
    ));
    assert!(matches!(r, Ok(Some(17))));
}

#[test]
fn optional_present_wrong_kind_is_nested_failure() {
    let r = <Option<bool> as AsCommandArgument>::from_returned_argument(Some(
        CommandArgumentValue::Str(String::from("yes")),
    ));
    match r {
        Err(ArgumentError::NestedParsingError(inner)) => match *inner {
            ArgumentError::IncorrectIncomingType(expected, found) => {
                assert_eq!(expected, ArgumentValueKind::Boolean);
                assert_eq!(found, ArgumentValueKind::Str);
            }
            other => panic!("wrong nested error: {:?}", other),
        },
        other => panic!("expected nested failure, got {:?}", other),
    }
}

#[test]
fn string_coerces_from_string_value() {
    let r = <String as AsCommandArgument>::from_returned_argument(Some(
        CommandArgumentValue::Str(String::from("hello")),
    ));
    assert_eq!(r.unwrap(), "hello");
}

#[test]
fn kind_mismatch_reports_expected_and_found() {
    let r = <String as AsCommandArgument>::from_returned_argument(Some(
        CommandArgumentValue::Integer(3),
    ));
    assert!(matches!(
        r,
        Err(ArgumentError::IncorrectIncomingType(
            ArgumentValueKind::Str,
            ArgumentValueKind::Integer
        ))
    ));
}

#[test]
fn narrowing_above_eight_bit_max_truncates() {
    let r = <u8 as AsCommandArgument>::from_returned_argument(Some(
        CommandArgumentValue::Integer(300),
    ));
    assert_eq!(r.unwrap(), 44u8);
}

#[test]
fn narrowing_signed_eight_bit_wraps() {
    let r = <i8 as AsCommandArgument>::from_returned_argument(Some(
        CommandArgumentValue::Integer(200),
    ));
    assert_eq!(r.unwrap(), -56i8);
}

#[test]
fn narrowing_negative_to_unsigned_truncates() {
    let r = <u8 as AsCommandArgument>::from_returned_argument(Some(
        CommandArgumentValue::Integer(-1),
    ));
    assert_eq!(r.unwrap(), 255u8);
}

#[test]
fn narrowing_sixteen_bit_boundary() {
    let r = <u16 as AsCommandArgument>::from_returned_argument(Some(
        CommandArgumentValue::Integer(65_536 + 5),
    ));
    assert_eq!(r.unwrap(), 5u16);
}

#[test]
fn full_width_integer_passes_through() {
    let r = <i64 as AsCommandArgument>::from_returned_argument(Some(
        CommandArgumentValue::Integer(i64::MIN),
    ));
    assert_eq!(r.unwrap(), i64::MIN);
}

#[test]
fn integer_value_types_carry_native_bounds() {
    assert_eq!(
        <u8 as AsCommandArgumentValue>::value_type(),
        CommandArgumentValueType::Integer(0, 255)
    );
    assert_eq!(
        <i8 as AsCommandArgumentValue>::value_type(),
        CommandArgumentValueType::Integer(-128, 127)
    );
    assert_eq!(
        <u64 as AsCommandArgumentValue>::value_type(),
        CommandArgumentValueType::Integer(0, u64::MAX as i128)
    );
}

#[test]
fn id_types_coerce_from_matching_references() {
    let r = <UserId as AsCommandArgument>::from_returned_argument(Some(
        CommandArgumentValue::User(UserId(42)),
    ));
    assert_eq!(r.unwrap(), UserId(42));
    let r = <ChannelId as AsCommandArgument>::from_returned_argument(Some(
        CommandArgumentValue::Channel(ChannelId(7)),
    ));
    assert_eq!(r.unwrap(), ChannelId(7));
    let r = <RoleId as AsCommandArgument>::from_returned_argument(Some(
        CommandArgumentValue::Role(RoleId(9)),
    ));
    assert_eq!(r.unwrap(), RoleId(9));
}

#[test]
fn wire_number_carries_float_bits() {
    let bits = 2.5f64.to_bits();
    let r = <WireNumber as AsCommandArgument>::from_returned_argument(Some(
        CommandArgumentValue::Number(bits),
    ));
    assert_eq!(r.unwrap(), WireNumber(bits));
    assert_eq!(f64::from_bits(bits), 2.5);
}

#[test]
fn from_resolved_maps_each_payload() {
    assert!(matches!(
        CommandArgumentValue::from_resolved(&ResolvedValue::Integer(5)),
        Ok(CommandArgumentValue::Integer(5))
    ));
    assert!(matches!(
        CommandArgumentValue::from_resolved(&ResolvedValue::Boolean(true)),
        Ok(CommandArgumentValue::Boolean(true))
    ));
    assert!(matches!(
        CommandArgumentValue::from_resolved(&ResolvedValue::User(3)),
        Ok(CommandArgumentValue::User(UserId(3)))
    ));
    let s = CommandArgumentValue::from_resolved(&ResolvedValue::Str(String::from("x"))).unwrap();
    assert_eq!(s, CommandArgumentValue::Str(String::from("x")));
}

#[test]
fn kind_names_describe_values() {
    assert_eq!(
        CommandArgumentValue::Str(String::from("x")).kind_name(),
        "String"
    );
    assert_eq!(CommandArgumentValue::Number(0).kind_name(), "Float");
    assert_eq!(
        CommandArgumentValue::Boolean(false).kind_name(),
        "Boolean"
    );
}

#[test]
fn from_resolved_unknown_kind_is_forward_compat_error() {
    let r = CommandArgumentValue::from_resolved(&ResolvedValue::Unknown);
    assert!(matches!(r, Err(ArgumentError::UnknownIncomingType)));
}

#[test]
fn lookup_failure_is_preprocessing_error() {
    let r: Result<u32, ArgumentError> = lookup_to_result(None);
    assert!(matches!(r, Err(ArgumentError::ArgumentPreprocessingError)));
    let r: Result<u32, ArgumentError> = lookup_to_result(Some(8));
    assert_eq!(r.unwrap(), 8);
}

#[test]
fn guild_channel_filter_accepts_only_guild_channels() {
    assert!(guild_channel_filter(FetchedChannelKind::Guild).is_ok());
    assert!(matches!(
        guild_channel_filter(FetchedChannelKind::Private),
        Err(ArgumentError::ArgumentPreprocessingError)
    ));
    assert!(matches!(
        guild_channel_filter(FetchedChannelKind::Category),
        Err(ArgumentError::ArgumentPreprocessingError)
    ));
}
