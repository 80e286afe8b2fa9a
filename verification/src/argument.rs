//! Wire-level argument values, the error taxonomy for coercion failures,
//! and channel-kind restriction codes.
//!
//! Each incoming interaction option carries at most one resolved wire
//! value. `CommandArgumentValue::from_resolved` turns the platform's
//! resolved payload into the library's tagged value; typed coercion then
//! converts that value (or its absence) into a native parameter type.

use vstd::prelude::*;

verus! {

/// Opaque reference to a channel on the platform.
#[derive(Debug, Clone, Copy, PartialEq, Eq, Structural)]
pub struct ChannelId(pub u64);

/// Opaque reference to a user on the platform.
#[derive(Debug, Clone, Copy, PartialEq, Eq, Structural)]
pub struct UserId(pub u64);

/// Opaque reference to a role on the platform.
#[derive(Debug, Clone, Copy, PartialEq, Eq, Structural)]
pub struct RoleId(pub u64);

/// The bare kind of a wire value, without validation bounds. Used when
/// reporting a mismatch between the declared and the received kind.
#[derive(Debug, Clone, Copy, PartialEq, Eq, Structural)]
pub enum ArgumentValueKind {
    Str,
    Integer,
    Number,
    Channel,
    User,
    Role,
    Boolean,
}

/// The declared wire type of a parameter. Numeric kinds carry the
/// inclusive default bounds derived from the native parameter type:
/// integers as plain values, floats as IEEE-754 bit patterns (this crate
/// never computes with floats; it stores and forwards their bits).
#[derive(Debug, Clone, Copy, PartialEq, Eq, Structural)]
pub enum CommandArgumentValueType {
    Str,
    Integer(i128, i128),
    Number(u64, u64),
    Channel,
    User,
    Role,
    Boolean,
}

impl CommandArgumentValueType {
    /// The bare kind of this declared type.
    pub open spec fn spec_kind(self) -> ArgumentValueKind {
        match self {
            CommandArgumentValueType::Str => ArgumentValueKind::Str,
            CommandArgumentValueType::Integer(_, _) => ArgumentValueKind::Integer,
            CommandArgumentValueType::Number(_, _) => ArgumentValueKind::Number,
            CommandArgumentValueType::Channel => ArgumentValueKind::Channel,
            CommandArgumentValueType::User => ArgumentValueKind::User,
            CommandArgumentValueType::Role => ArgumentValueKind::Role,
            CommandArgumentValueType::Boolean => ArgumentValueKind::Boolean,
        }
    }

    pub fn kind(&self) -> (r: ArgumentValueKind)
        ensures
            r == self.spec_kind(),
    {
        match self {
            CommandArgumentValueType::Str => ArgumentValueKind::Str,
            CommandArgumentValueType::Integer(_, _) => ArgumentValueKind::Integer,
            CommandArgumentValueType::Number(_, _) => ArgumentValueKind::Number,
            CommandArgumentValueType::Channel => ArgumentValueKind::Channel,
            CommandArgumentValueType::User => ArgumentValueKind::User,
            CommandArgumentValueType::Role => ArgumentValueKind::Role,
            CommandArgumentValueType::Boolean => ArgumentValueKind::Boolean,
        }
    }
}

/// A wire value attached to one incoming interaction option, after the
/// platform has resolved mentions to ids. Floats are carried as IEEE-754
/// bit patterns. `Unknown` stands for a payload kind this layer does not
/// recognize (a forward-compatibility fault).
#[derive(Debug, Clone, PartialEq)]
pub enum ResolvedValue {
    Str(String),
    Integer(i64),
    Number(u64),
    Channel(u64),
    User(u64),
    Role(u64),
    Boolean(bool),
    Unknown,
}

/// The library's tagged union of argument values, produced once per
/// incoming option and never mutated.
#[derive(Debug, PartialEq)]
pub enum CommandArgumentValue {
    Str(String),
    Integer(i64),
    Number(u64),
    Channel(ChannelId),
    User(UserId),
    Role(RoleId),
    Boolean(bool),
}

/// A failure while converting a wire value into a native parameter type.
#[derive(Debug)]
pub enum ArgumentError {
    /// The platform sent a value kind this layer does not recognize.
    UnknownIncomingType,
    /// The received kind does not match the declared kind
    /// (expected, found).
    IncorrectIncomingType(ArgumentValueKind, ArgumentValueKind),
    /// A required (non-optional) argument had no value.
    IncomingArgumentNotProvided,
    /// A platform-object lookup for the argument failed.
    ArgumentPreprocessingError,
    /// Coercion of the inner type of an optional wrapper failed.
    NestedParsingError(Box<ArgumentError>),
}

impl CommandArgumentValue {
    /// The bare kind of this value.
    pub open spec fn spec_kind(self) -> ArgumentValueKind {
        match self {
            CommandArgumentValue::Str(_) => ArgumentValueKind::Str,
            CommandArgumentValue::Integer(_) => ArgumentValueKind::Integer,
            CommandArgumentValue::Number(_) => ArgumentValueKind::Number,
            CommandArgumentValue::Channel(_) => ArgumentValueKind::Channel,
            CommandArgumentValue::User(_) => ArgumentValueKind::User,
            CommandArgumentValue::Role(_) => ArgumentValueKind::Role,
            CommandArgumentValue::Boolean(_) => ArgumentValueKind::Boolean,
        }
    }

    pub fn kind(&self) -> (r: ArgumentValueKind)
        ensures
            r == self.spec_kind(),
    {
        match self {
            CommandArgumentValue::Str(_) => ArgumentValueKind::Str,
            CommandArgumentValue::Integer(_) => ArgumentValueKind::Integer,
            CommandArgumentValue::Number(_) => ArgumentValueKind::Number,
            CommandArgumentValue::Channel(_) => ArgumentValueKind::Channel,
            CommandArgumentValue::User(_) => ArgumentValueKind::User,
            CommandArgumentValue::Role(_) => ArgumentValueKind::Role,
            CommandArgumentValue::Boolean(_) => ArgumentValueKind::Boolean,
        }
    }

    /// The name of this value's kind, for diagnostics.
    pub fn kind_name(&self) -> String {
        match self {
            CommandArgumentValue::Str(_) => String::from_str("String"),
            CommandArgumentValue::Integer(_) => String::from_str("Integer"),
            CommandArgumentValue::Number(_) => String::from_str("Float"),
            CommandArgumentValue::Channel(_) => String::from_str("Channel"),
            CommandArgumentValue::User(_) => String::from_str("User"),
            CommandArgumentValue::Role(_) => String::from_str("Role"),
            CommandArgumentValue::Boolean(_) => String::from_str("Boolean"),
        }
    }

    /// What `from_resolved` returns for each resolved wire payload.
    pub open spec fn spec_from_resolved(resolved: ResolvedValue) -> Result<
        CommandArgumentValue,
        ArgumentError,
    > {
        match resolved {
            ResolvedValue::Str(s) => Ok(CommandArgumentValue::Str(s)),
            ResolvedValue::Integer(i) => Ok(CommandArgumentValue::Integer(i)),
            ResolvedValue::Number(n) => Ok(CommandArgumentValue::Number(n)),
            ResolvedValue::Channel(c) => Ok(CommandArgumentValue::Channel(ChannelId(c))),
            ResolvedValue::User(u) => Ok(CommandArgumentValue::User(UserId(u))),
            ResolvedValue::Role(r) => Ok(CommandArgumentValue::Role(RoleId(r))),
            ResolvedValue::Boolean(b) => Ok(CommandArgumentValue::Boolean(b)),
            ResolvedValue::Unknown => Err(ArgumentError::UnknownIncomingType),
        }
    }

    /// Convert the platform's resolved payload into the library's tagged
    /// value; an unrecognized payload kind is the forward-compatibility
    /// error.
    pub fn from_resolved(resolved: &ResolvedValue) -> (r: Result<
        CommandArgumentValue,
        ArgumentError,
    >)
        ensures
            r == Self::spec_from_resolved(*resolved),
    {
        match resolved {
            ResolvedValue::Str(s) => Ok(CommandArgumentValue::Str(s.clone())),
            ResolvedValue::Integer(i) => Ok(CommandArgumentValue::Integer(*i)),
            ResolvedValue::Number(n) => Ok(CommandArgumentValue::Number(*n)),
            ResolvedValue::Channel(c) => Ok(CommandArgumentValue::Channel(ChannelId(*c))),
            ResolvedValue::User(u) => Ok(CommandArgumentValue::User(UserId(*u))),
            ResolvedValue::Role(r) => Ok(CommandArgumentValue::Role(RoleId(*r))),
            ResolvedValue::Boolean(b) => Ok(CommandArgumentValue::Boolean(*b)),
            ResolvedValue::Unknown => Err(ArgumentError::UnknownIncomingType),
        }
    }
}

/// A channel-kind restriction that a channel parameter may declare.
#[derive(Debug, Clone, Copy, PartialEq, Eq, Structural)]
pub enum ChannelType {
    /// All voice channels (but not stage channels)
    Voice,
    /// Only stage channels
    Stage,
    /// Any text channel, including news channels and normal text channels. No threads.
    Text,
    /// Only news channels
    News,
    /// Private threads in news channels
    NewsThreads,
    /// Any public threads
    Thread,
    /// Any channel category
    Category,
    /// Private channels (ie DMs)
    Private,
    /// Any type of channel
    All,
}

/// Which platform channel-kind codes a restriction admits. The codes are
/// the platform's numeric channel kinds (text 0, private 1, voice 2,
/// category 4, news 5, news thread 10, public thread 11, private thread
/// 12, stage 13).
pub open spec fn channel_type_admits(c: ChannelType, code: u8) -> bool {
    match c {
        ChannelType::Voice => code == 2,
        ChannelType::Stage => code == 13,
        ChannelType::Text => code == 0,
        ChannelType::News => code == 5,
        ChannelType::NewsThreads => code == 12,
        ChannelType::Thread => code == 11,
        ChannelType::Category => code == 4,
        ChannelType::Private => code == 1,
        ChannelType::All => code == 0 || code == 1 || code == 2 || code == 4 || code == 5
            || code == 10 || code == 11 || code == 12 || code == 13,
    }
}

fn admits_code(c: &ChannelType, code: u8) -> (r: bool)
    ensures
        r == channel_type_admits(*c, code),
{
    match c {
        ChannelType::Voice => code == 2,
        ChannelType::Stage => code == 13,
        ChannelType::Text => code == 0,
        ChannelType::News => code == 5,
        ChannelType::NewsThreads => code == 12,
        ChannelType::Thread => code == 11,
        ChannelType::Category => code == 4,
        ChannelType::Private => code == 1,
        ChannelType::All => code == 0 || code == 1 || code == 2 || code == 4 || code == 5
            || code == 10 || code == 11 || code == 12 || code == 13,
    }
}

/// Expand a list of channel-kind restrictions into the platform's numeric
/// channel-kind codes, in ascending order and without duplicates.
pub fn as_channel_types(channel_types: Vec<ChannelType>) -> (r: Vec<u8>)
    ensures
        forall|j: int, l: int| 0 <= j < l < r@.len() ==> r@[j] < r@[l],
        forall|code: u8|
            r@.contains(code) <==> exists|i: int|
                0 <= i < channel_types@.len() && channel_type_admits(
                    #[trigger] channel_types@[i],
                    code,
                ),
{
    let mut channels: Vec<u8> = Vec::new();
    let mut code: u8 = 0;
    while code < 14
        invariant
            code <= 14,
            forall|j: int, l: int| 0 <= j < l < channels@.len() ==> channels@[j] < channels@[l],
            forall|j: int| 0 <= j < channels@.len() ==> channels@[j] < code,
            forall|k: u8|
                channels@.contains(k) <==> (k < code && exists|i: int|
                    0 <= i < channel_types@.len() && channel_type_admits(
                        #[trigger] channel_types@[i],
                        k,
                    )),
        decreases 14 - code,
    {
        let mut found = false;
        let mut i: usize = 0;
        while i < channel_types.len()
            invariant
                i <= channel_types@.len(),
                found == exists|j: int|
                    0 <= j < i && channel_type_admits(#[trigger] channel_types@[j], code),
            decreases channel_types@.len() - i,
        {
            if admits_code(&channel_types[i], code) {
                found = true;
            }
            i = i + 1;
        }
        let ghost prev = channels@;
        if found {
            channels.push(code);
        }
        proof {
            assert forall|k: u8| #[trigger] channels@.contains(k) implies (k < code + 1
                && exists|i: int|
                0 <= i < channel_types@.len() && channel_type_admits(
                    #[trigger] channel_types@[i],
                    k,
                )) by {
                let j = choose|j: int| 0 <= j < channels@.len() && channels@[j] == k;
                if j < prev.len() {
                    assert(prev[j] == k);
                    assert(prev.contains(k));
                }
            }
            assert forall|k: u8|
                (k < code + 1 && exists|i: int|
                    0 <= i < channel_types@.len() && channel_type_admits(
                        #[trigger] channel_types@[i],
                        k,
                    )) implies #[trigger] channels@.contains(k) by {
                if k < code {
                    assert(prev.contains(k));
                    let j = choose|j: int| 0 <= j < prev.len() && prev[j] == k;
                    assert(channels@[j] == k);
                } else {
                    assert(channels@[prev.len() as int] == code);
                }
            }
        }
        code = code + 1;
    }
    channels
}

/// The declared type of one handler parameter: a wire type plus whether
/// the parameter is an optional wrapper. `optional` is derived from the
/// parameter's native type, never independently settable.
#[derive(Debug, Clone, Copy, PartialEq, Eq, Structural)]
pub struct CommandArgumentType {
    pub optional: bool,
    pub value_type: CommandArgumentValueType,
}

/// What coercion of a single required value returns, for any capability
/// type `T`: absence is the missing-required error, a kind mismatch is
/// reported with the expected and found kinds, and a matching kind
/// converts by `T`'s own rule.
pub open spec fn spec_value_coercion<T: AsCommandArgumentValue>(
    arg: Option<CommandArgumentValue>,
) -> Result<T, ArgumentError> {
    match arg {
        Option::None => Err(ArgumentError::IncomingArgumentNotProvided),
        Option::Some(v) => if T::spec_accepts(v) {
            Ok(T::spec_convert(v))
        } else {
            Err(
                ArgumentError::IncorrectIncomingType(
                    T::spec_value_type().spec_kind(),
                    v.spec_kind(),
                ),
            )
        },
    }
}

/// Capability of a primitive native type to be produced from a wire
/// value: a string, a sized integer, a boolean, an opaque id, or float
/// bits. Wrappers such as `Option<T>` use [`AsCommandArgument`] instead.
pub trait AsCommandArgumentValue: Sized {
    /// The declared wire type, with the default bounds this native type
    /// implies.
    spec fn spec_value_type() -> CommandArgumentValueType;

    /// Which wire values this type accepts.
    spec fn spec_accepts(v: CommandArgumentValue) -> bool;

    /// The native value produced from an accepted wire value.
    spec fn spec_convert(v: CommandArgumentValue) -> Self;

    /// A value is accepted exactly when its kind matches the declared
    /// kind.
    proof fn accepts_is_kind_match(v: CommandArgumentValue)
        ensures
            Self::spec_accepts(v) == (v.spec_kind() == Self::spec_value_type().spec_kind()),
    ;

    fn value_type() -> (r: CommandArgumentValueType)
        ensures
            r == Self::spec_value_type(),
    ;

    fn from_returned_argument(arg: Option<CommandArgumentValue>) -> (r: Result<
        Self,
        ArgumentError,
    >)
        ensures
            match arg {
                Option::None => r == Err::<Self, ArgumentError>(
                    ArgumentError::IncomingArgumentNotProvided,
                ),
                Option::Some(v) => if Self::spec_accepts(v) {
                    r == Ok::<Self, ArgumentError>(Self::spec_convert(v))
                } else {
                    r == Err::<Self, ArgumentError>(
                        ArgumentError::IncorrectIncomingType(
                            Self::spec_value_type().spec_kind(),
                            v.spec_kind(),
                        ),
                    )
                },
            },
    ;
}

/// Capability of a full handler parameter type — a primitive or a wrapper
/// over one — to be produced from a wire value or its absence.
pub trait AsCommandArgument: Sized {
    /// The declared parameter type (wire type and optionality).
    spec fn spec_command_argument_type() -> CommandArgumentType;

    /// What coercion returns for each wire value or for absence.
    spec fn spec_coerce(arg: Option<CommandArgumentValue>) -> Result<Self, ArgumentError>;

    fn command_argument_type() -> (r: CommandArgumentType)
        ensures
            r == Self::spec_command_argument_type(),
    ;

    fn from_returned_argument(arg: Option<CommandArgumentValue>) -> (r: Result<
        Self,
        ArgumentError,
    >)
        ensures
            r == Self::spec_coerce(arg),
    ;
}

impl<T: AsCommandArgumentValue> AsCommandArgument for T {
    open spec fn spec_command_argument_type() -> CommandArgumentType {
        CommandArgumentType { optional: false, value_type: T::spec_value_type() }
    }

    open spec fn spec_coerce(arg: Option<CommandArgumentValue>) -> Result<T, ArgumentError> {
        spec_value_coercion::<T>(arg)
    }

    fn command_argument_type() -> CommandArgumentType {
        CommandArgumentType { optional: false, value_type: T::value_type() }
    }

    fn from_returned_argument(arg: Option<CommandArgumentValue>) -> Result<T, ArgumentError> {
        T::from_returned_argument(arg)
    }
}

impl<T: AsCommandArgumentValue> AsCommandArgument for Option<T> {
    open spec fn spec_command_argument_type() -> CommandArgumentType {
        CommandArgumentType { optional: true, value_type: T::spec_value_type() }
    }

    /// Absence is not an error for an optional parameter; a present value
    /// coerces by the inner rule, wrapping any failure as nested.
    open spec fn spec_coerce(arg: Option<CommandArgumentValue>) -> Result<
        Option<T>,
        ArgumentError,
    > {
        match arg {
            Option::None => Ok(Option::None),
            Option::Some(v) => match spec_value_coercion::<T>(Some(v)) {
                Ok(x) => Ok(Option::Some(x)),
                Err(e) => Err(ArgumentError::NestedParsingError(Box::new(e))),
            },
        }
    }

    fn command_argument_type() -> CommandArgumentType {
        CommandArgumentType { optional: true, value_type: T::value_type() }
    }

    fn from_returned_argument(arg: Option<CommandArgumentValue>) -> Result<
        Option<T>,
        ArgumentError,
    > {
        match arg {
            Option::None => Ok(Option::None),
            Option::Some(v) => match T::from_returned_argument(Some(v)) {
                Ok(x) => Ok(Option::Some(x)),
                Err(e) => Err(ArgumentError::NestedParsingError(Box::new(e))),
            },
        }
    }
}

impl AsCommandArgumentValue for String {
    open spec fn spec_value_type() -> CommandArgumentValueType {
        CommandArgumentValueType::Str
    }

    open spec fn spec_accepts(v: CommandArgumentValue) -> bool {
        v is Str
    }

    open spec fn spec_convert(v: CommandArgumentValue) -> String {
        match v {
            CommandArgumentValue::Str(s) => s,
            _ => arbitrary(),
        }
    }

    proof fn accepts_is_kind_match(v: CommandArgumentValue) {
    }

    fn value_type() -> CommandArgumentValueType {
        CommandArgumentValueType::Str
    }

    fn from_returned_argument(arg: Option<CommandArgumentValue>) -> Result<
        String,
        ArgumentError,
    > {
        match arg {
            Option::Some(v) => match v {
                CommandArgumentValue::Str(s) => Ok(s),
                _ => Err(
                    ArgumentError::IncorrectIncomingType(ArgumentValueKind::Str, v.kind()),
                ),
            },
            Option::None => Err(ArgumentError::IncomingArgumentNotProvided),
        }
    }
}

impl AsCommandArgumentValue for bool {
    open spec fn spec_value_type() -> CommandArgumentValueType {
        CommandArgumentValueType::Boolean
    }

    open spec fn spec_accepts(v: CommandArgumentValue) -> bool {
        v is Boolean
    }

    open spec fn spec_convert(v: CommandArgumentValue) -> bool {
        match v {
            CommandArgumentValue::Boolean(b) => b,
            _ => arbitrary(),
        }
    }

    proof fn accepts_is_kind_match(v: CommandArgumentValue) {
    }

    fn value_type() -> CommandArgumentValueType {
        CommandArgumentValueType::Boolean
    }

    fn from_returned_argument(arg: Option<CommandArgumentValue>) -> Result<bool, ArgumentError> {
        match arg {
            Option::Some(v) => match v {
                CommandArgumentValue::Boolean(b) => Ok(b),
                _ => Err(
                    ArgumentError::IncorrectIncomingType(ArgumentValueKind::Boolean, v.kind()),
                ),
            },
            Option::None => Err(ArgumentError::IncomingArgumentNotProvided),
        }
    }
}

/// Every sized native integer coerces from a wire integer by truncating
/// narrowing; its declared wire type carries the native bounds.
impl<T: crate::numbers::Integer> AsCommandArgumentValue for T {
    open spec fn spec_value_type() -> CommandArgumentValueType {
        CommandArgumentValueType::Integer(T::spec_min(), T::spec_max())
    }

    open spec fn spec_accepts(v: CommandArgumentValue) -> bool {
        v is Integer
    }

    open spec fn spec_convert(v: CommandArgumentValue) -> T {
        match v {
            CommandArgumentValue::Integer(i) => T::spec_from_i64(i),
            _ => arbitrary(),
        }
    }

    proof fn accepts_is_kind_match(v: CommandArgumentValue) {
    }

    fn value_type() -> CommandArgumentValueType {
        CommandArgumentValueType::Integer(T::min_value(), T::max_value())
    }

    fn from_returned_argument(arg: Option<CommandArgumentValue>) -> Result<T, ArgumentError> {
        match arg {
            Option::Some(v) => match v {
                CommandArgumentValue::Integer(i) => Ok(T::from_i64(i)),
                _ => Err(
                    ArgumentError::IncorrectIncomingType(ArgumentValueKind::Integer, v.kind()),
                ),
            },
            Option::None => Err(ArgumentError::IncomingArgumentNotProvided),
        }
    }
}

/// A float parameter at wire precision, carried as IEEE-754 bits. The
/// hosting process converts the bits to its native float type; this crate
/// never computes with the value.
#[derive(Debug, Clone, Copy, PartialEq, Eq, Structural)]
pub struct WireNumber(pub u64);

/// Bit pattern of the most negative finite wire float.
pub const WIRE_NUMBER_MIN_BITS: u64 = 0xFFEF_FFFF_FFFF_FFFF;

/// Bit pattern of the largest finite wire float.
pub const WIRE_NUMBER_MAX_BITS: u64 = 0x7FEF_FFFF_FFFF_FFFF;

impl AsCommandArgumentValue for WireNumber {
    open spec fn spec_value_type() -> CommandArgumentValueType {
        CommandArgumentValueType::Number(WIRE_NUMBER_MIN_BITS, WIRE_NUMBER_MAX_BITS)
    }

    open spec fn spec_accepts(v: CommandArgumentValue) -> bool {
        v is Number
    }

    open spec fn spec_convert(v: CommandArgumentValue) -> WireNumber {
        match v {
            CommandArgumentValue::Number(n) => WireNumber(n),
            _ => arbitrary(),
        }
    }

    proof fn accepts_is_kind_match(v: CommandArgumentValue) {
    }

    fn value_type() -> CommandArgumentValueType {
        CommandArgumentValueType::Number(WIRE_NUMBER_MIN_BITS, WIRE_NUMBER_MAX_BITS)
    }

    fn from_returned_argument(arg: Option<CommandArgumentValue>) -> Result<
        WireNumber,
        ArgumentError,
    > {
        match arg {
            Option::Some(v) => match v {
                CommandArgumentValue::Number(n) => Ok(WireNumber(n)),
                _ => Err(
                    ArgumentError::IncorrectIncomingType(ArgumentValueKind::Number, v.kind()),
                ),
            },
            Option::None => Err(ArgumentError::IncomingArgumentNotProvided),
        }
    }
}

impl AsCommandArgumentValue for ChannelId {
    open spec fn spec_value_type() -> CommandArgumentValueType {
        CommandArgumentValueType::Channel
    }

    open spec fn spec_accepts(v: CommandArgumentValue) -> bool {
        v is Channel
    }

    open spec fn spec_convert(v: CommandArgumentValue) -> ChannelId {
        match v {
            CommandArgumentValue::Channel(c) => c,
            _ => arbitrary(),
        }
    }

    proof fn accepts_is_kind_match(v: CommandArgumentValue) {
    }

    fn value_type() -> CommandArgumentValueType {
        CommandArgumentValueType::Channel
    }

    fn from_returned_argument(arg: Option<CommandArgumentValue>) -> Result<
        ChannelId,
        ArgumentError,
    > {
        match arg {
            Option::Some(v) => match v {
                CommandArgumentValue::Channel(c) => Ok(c),
                _ => Err(
                    ArgumentError::IncorrectIncomingType(ArgumentValueKind::Channel, v.kind()),
                ),
            },
            Option::None => Err(ArgumentError::IncomingArgumentNotProvided),
        }
    }
}

impl AsCommandArgumentValue for UserId {
    open spec fn spec_value_type() -> CommandArgumentValueType {
        CommandArgumentValueType::User
    }

    open spec fn spec_accepts(v: CommandArgumentValue) -> bool {
        v is User
    }

    open spec fn spec_convert(v: CommandArgumentValue) -> UserId {
        match v {
            CommandArgumentValue::User(u) => u,
            _ => arbitrary(),
        }
    }

    proof fn accepts_is_kind_match(v: CommandArgumentValue) {
    }

    fn value_type() -> CommandArgumentValueType {
        CommandArgumentValueType::User
    }

    fn from_returned_argument(arg: Option<CommandArgumentValue>) -> Result<
        UserId,
        ArgumentError,
    > {
        match arg {
            Option::Some(v) => match v {
                CommandArgumentValue::User(u) => Ok(u),
                _ => Err(ArgumentError::IncorrectIncomingType(ArgumentValueKind::User, v.kind())),
            },
            Option::None => Err(ArgumentError::IncomingArgumentNotProvided),
        }
    }
}

impl AsCommandArgumentValue for RoleId {
    open spec fn spec_value_type() -> CommandArgumentValueType {
        CommandArgumentValueType::Role
    }

    open spec fn spec_accepts(v: CommandArgumentValue) -> bool {
        v is Role
    }

    open spec fn spec_convert(v: CommandArgumentValue) -> RoleId {
        match v {
            CommandArgumentValue::Role(r) => r,
            _ => arbitrary(),
        }
    }

    proof fn accepts_is_kind_match(v: CommandArgumentValue) {
    }

    fn value_type() -> CommandArgumentValueType {
        CommandArgumentValueType::Role
    }

    fn from_returned_argument(arg: Option<CommandArgumentValue>) -> Result<
        RoleId,
        ArgumentError,
    > {
        match arg {
            Option::Some(v) => match v {
                CommandArgumentValue::Role(r) => Ok(r),
                _ => Err(ArgumentError::IncorrectIncomingType(ArgumentValueKind::Role, v.kind())),
            },
            Option::None => Err(ArgumentError::IncomingArgumentNotProvided),
        }
    }
}

/// Validation options a parameter may declare on top of its native type:
/// narrowed numeric bounds, string length bounds, and channel-kind
/// restrictions. All are advisory metadata sent to the platform.
#[derive(Debug, Clone)]
pub struct CommandArgumentOptions {
    pub min: Option<i64>,
    pub max: Option<i64>,
    pub min_len: Option<u64>,
    pub max_len: Option<u64>,
    pub channel_type: Option<Vec<ChannelType>>,
}

/// The static description of one handler parameter.
#[derive(Debug, Clone)]
pub struct CommandArgumentSignature {
    pub name: String,
    pub description: String,
    pub argument: CommandArgumentType,
    pub options: CommandArgumentOptions,
}

/// The static description of a handler's parameter list. If `context` is
/// true the handler receives the per-invocation context handle as its
/// first parameter, which is not listed in `arguments`.
#[derive(Debug, Clone)]
pub struct CommandSignature {
    /// Is context the first argument?
    pub context: bool,
    pub arguments: Vec<CommandArgumentSignature>,
}

/// One materialized argument of an incoming interaction: the option's
/// name and its wire value, if one was sent.
#[derive(Debug)]
pub struct CommandArgument {
    pub name: String,
    pub value: Option<CommandArgumentValue>,
}

impl Clone for CommandArgumentValue {
    fn clone(&self) -> (res: Self)
        ensures
            res == *self,
    {
        match self {
            CommandArgumentValue::Str(s) => CommandArgumentValue::Str(s.clone()),
            CommandArgumentValue::Integer(i) => CommandArgumentValue::Integer(*i),
            CommandArgumentValue::Number(n) => CommandArgumentValue::Number(*n),
            CommandArgumentValue::Channel(c) => CommandArgumentValue::Channel(*c),
            CommandArgumentValue::User(u) => CommandArgumentValue::User(*u),
            CommandArgumentValue::Role(r) => CommandArgumentValue::Role(*r),
            CommandArgumentValue::Boolean(b) => CommandArgumentValue::Boolean(*b),
        }
    }
}

impl Clone for CommandArgument {
    fn clone(&self) -> (res: Self)
        ensures
            res == *self,
    {
        CommandArgument {
            name: self.name.clone(),
            value: match &self.value {
                Option::Some(v) => Option::Some(v.clone()),
                Option::None => Option::None,
            },
        }
    }
}

impl CommandArgument {
    /// Coerce this argument to the native parameter type `T`.
    pub fn as_arg<T: AsCommandArgument>(&self) -> (r: Result<T, ArgumentError>)
        ensures
            r == T::spec_coerce(self.value),
    {
        T::from_returned_argument(
            match &self.value {
                Option::Some(v) => Option::Some(v.clone()),
                Option::None => Option::None,
            },
        )
    }
}

/// The ordered argument list handed to a handler adapter. The adapter
/// pulls one argument per declared parameter, in order; positions beyond
/// the materialized list stand for an absent value, so that a tree-shape
/// mismatch surfaces as a coercion error rather than a crash.
#[derive(Debug, Clone)]
pub struct ArgumentList {
    args: Vec<CommandArgument>,
    current: usize,
}

impl ArgumentList {
    /// The materialized arguments, in wire order.
    pub closed spec fn spec_args(self) -> Seq<CommandArgument> {
        self.args@
    }

    /// How many arguments have been pulled so far.
    pub closed spec fn spec_current(self) -> nat {
        self.current as nat
    }

    /// The wire value the next pull will coerce: the value at the cursor,
    /// or absence when the cursor is past the end.
    pub open spec fn spec_next_value(self) -> Option<CommandArgumentValue> {
        if self.spec_current() < self.spec_args().len() {
            self.spec_args()[self.spec_current() as int].value
        } else {
            Option::None
        }
    }

    pub fn new(args: Vec<CommandArgument>) -> (r: Self)
        ensures
            r.spec_args() == args@,
            r.spec_current() == 0,
    {
        Self { args, current: 0 }
    }

    /// Pull the next positional argument, coerced to the native parameter
    /// type `A`.
    pub fn arg<A: AsCommandArgument>(&mut self) -> (r: Result<A, ArgumentError>)
        requires
            old(self).spec_current() < usize::MAX,
        ensures
            final(self).spec_args() == old(self).spec_args(),
            final(self).spec_current() == old(self).spec_current() + 1,
            r == A::spec_coerce(old(self).spec_next_value()),
    {
        self.current = self.current + 1;
        if self.current - 1 < self.args.len() {
            self.args[self.current - 1].as_arg::<A>()
        } else {
            A::from_returned_argument(Option::None)
        }
    }
}

/// A required parameter with no value provided always fails with the
/// missing-required error, for every primitive capability type.
pub proof fn lemma_required_absent_is_missing<T: AsCommandArgumentValue>()
    ensures
        spec_value_coercion::<T>(Option::None) == Err::<T, ArgumentError>(
            ArgumentError::IncomingArgumentNotProvided,
        ),
{
}

/// An optional parameter with no value provided coerces to `None` without
/// error, for every primitive capability type.
pub proof fn lemma_optional_absent_is_none<T: AsCommandArgumentValue>()
    ensures
        <Option<T> as AsCommandArgument>::spec_coerce(Option::None) == Ok::<
            Option<T>,
            ArgumentError,
        >(Option::None),
{
}

/// A present value never yields the missing-required error, and an
/// accepted value converts by the type's own rule, for every primitive
/// capability type.
pub proof fn lemma_present_value_never_missing<T: AsCommandArgumentValue>(
    v: CommandArgumentValue,
)
    ensures
        spec_value_coercion::<T>(Option::Some(v)) != Err::<T, ArgumentError>(
            ArgumentError::IncomingArgumentNotProvided,
        ),
        T::spec_accepts(v) ==> spec_value_coercion::<T>(Option::Some(v)) == Ok::<
            T,
            ArgumentError,
        >(T::spec_convert(v)),
{
}

/// What kind of channel a platform lookup handed back, as far as the
/// guild-channel coercion distinguishes them.
#[derive(Debug, Clone, Copy, PartialEq, Eq, Structural)]
pub enum FetchedChannelKind {
    /// A channel of a guild.
    Guild,
    /// A private channel (a direct message).
    Private,
    /// A channel category.
    Category,
    /// Any other channel kind.
    Other,
}

/// Map the outcome of an asynchronous platform-object lookup, which the
/// hosting process performs: a missing object is the preprocessing
/// failure, a found one is the coerced argument.
pub fn lookup_to_result<T>(outcome: Option<T>) -> (r: Result<T, ArgumentError>)
    ensures
        match outcome {
            Option::Some(v) => r == Ok::<T, ArgumentError>(v),
            Option::None => r == Err::<T, ArgumentError>(ArgumentError::ArgumentPreprocessingError),
        },
{
    match outcome {
        Option::Some(v) => Ok(v),
        Option::None => Err(ArgumentError::ArgumentPreprocessingError),
    }
}

/// The guild-channel coercion accepts only a guild channel from the
/// lookup; every other channel kind is the preprocessing failure.
pub fn guild_channel_filter(kind: FetchedChannelKind) -> (r: Result<(), ArgumentError>)
    ensures
        kind == FetchedChannelKind::Guild ==> r == Ok::<(), ArgumentError>(()),
        kind != FetchedChannelKind::Guild ==> r == Err::<(), ArgumentError>(
            ArgumentError::ArgumentPreprocessingError,
        ),
{
    match kind {
        FetchedChannelKind::Guild => Ok(()),
        _ => Err(ArgumentError::ArgumentPreprocessingError),
    }
}

} // verus!
