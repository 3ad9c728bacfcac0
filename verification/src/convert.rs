//! How callers' values become arguments, and how replies become
//! callers' values.

use vstd::prelude::*;

use vstd::utf8::{decode_utf8, encode_utf8, valid_utf8};
use crate::bytes::{bytes_eq, copy_bytes};
use crate::error::RedisError;
use crate::numbers::{decimal, format_i64, lemma_digits, parse_i64, parse_i64_spec};
use crate::text::{eq_ignore_ascii_case, lemma_ascii_is_utf8, same_ignoring_case, string_from_utf8};
use crate::value::{Value, ValueView, lemma_array_view, lemma_views_of_add, views_of};

verus! {

/// Values that can be handed to an operation as arguments.
pub trait ToRedisArgs {
    /// The arguments that the value stands for.
    spec fn args_view(&self) -> Seq<ValueView>;

    /// The value as a list of arguments.
    fn to_redis_args(&self) -> (args: Vec<Value>)
        ensures
            views_of(args@) == self.args_view(),
    ;
}

/// One argument holding `value`.
fn single(value: Value) -> (args: Vec<Value>)
    ensures
        views_of(args@) == seq![value@],
{
    let mut args: Vec<Value> = Vec::new();
    args.push(value);
    assert(views_of(args@) =~= seq![value@]);
    args
}

impl ToRedisArgs for String {
    open spec fn args_view(&self) -> Seq<ValueView> {
        seq![ValueView::String(encode_utf8(self@))]
    }

    fn to_redis_args(&self) -> (args: Vec<Value>) {
        single(Value::String(copy_bytes(self.as_str().as_bytes())))
    }
}

impl ToRedisArgs for &str {
    open spec fn args_view(&self) -> Seq<ValueView> {
        seq![ValueView::String(encode_utf8(self@))]
    }

    fn to_redis_args(&self) -> (args: Vec<Value>) {
        single(Value::String(copy_bytes(self.as_bytes())))
    }
}

impl ToRedisArgs for Vec<u8> {
    open spec fn args_view(&self) -> Seq<ValueView> {
        seq![ValueView::String(self@)]
    }

    fn to_redis_args(&self) -> (args: Vec<Value>) {
        single(Value::String(copy_bytes(self.as_slice())))
    }
}

impl ToRedisArgs for &[u8] {
    open spec fn args_view(&self) -> Seq<ValueView> {
        seq![ValueView::String(self@)]
    }

    fn to_redis_args(&self) -> (args: Vec<Value>) {
        single(Value::String(copy_bytes(self)))
    }
}

impl ToRedisArgs for i64 {
    open spec fn args_view(&self) -> Seq<ValueView> {
        seq![ValueView::Int(*self)]
    }

    fn to_redis_args(&self) -> (args: Vec<Value>) {
        single(Value::Int(*self))
    }
}

impl ToRedisArgs for u64 {
    /// The same 64 bits read as a signed integer.
    open spec fn args_view(&self) -> Seq<ValueView> {
        seq![ValueView::Int(*self as i64)]
    }

    fn to_redis_args(&self) -> (args: Vec<Value>) {
        single(Value::Int(*self as i64))
    }
}

impl ToRedisArgs for isize {
    open spec fn args_view(&self) -> Seq<ValueView> {
        seq![ValueView::Int(*self as i64)]
    }

    fn to_redis_args(&self) -> (args: Vec<Value>) {
        single(Value::Int(*self as i64))
    }
}

impl ToRedisArgs for usize {
    open spec fn args_view(&self) -> Seq<ValueView> {
        seq![ValueView::Int(*self as i64)]
    }

    fn to_redis_args(&self) -> (args: Vec<Value>) {
        single(Value::Int(*self as i64))
    }
}

impl ToRedisArgs for bool {
    open spec fn args_view(&self) -> Seq<ValueView> {
        seq![ValueView::Bool(*self)]
    }

    fn to_redis_args(&self) -> (args: Vec<Value>) {
        single(Value::Bool(*self))
    }
}

impl<T: ToRedisArgs> ToRedisArgs for Option<T> {
    /// The arguments of the value inside, or one null argument.
    open spec fn args_view(&self) -> Seq<ValueView> {
        match self {
            Some(v) => v.args_view(),
            None => seq![ValueView::Null],
        }
    }

    fn to_redis_args(&self) -> (args: Vec<Value>) {
        match self {
            Some(v) => v.to_redis_args(),
            None => single(Value::Null),
        }
    }
}

/// The arguments of all `items`, one item after the other.
pub open spec fn flat_args<T: ToRedisArgs>(items: Seq<T>) -> Seq<ValueView>
    decreases items.len(),
{
    if items.len() == 0 {
        Seq::empty()
    } else {
        flat_args(items.drop_last()) + items.last().args_view()
    }
}

impl<T: ToRedisArgs> ToRedisArgs for Vec<T> {
    open spec fn args_view(&self) -> Seq<ValueView> {
        flat_args(self@)
    }

    fn to_redis_args(&self) -> (args: Vec<Value>) {
        let mut args: Vec<Value> = Vec::new();
        let mut i: usize = 0;
        assert(views_of(args@) =~= flat_args(self@.take(0)));
        while i < self.len()
            invariant
                i <= self.len(),
                views_of(args@) == flat_args(self@.take(i as int)),
            decreases self.len() - i,
        {
            let mut more = self[i].to_redis_args();
            proof {
                lemma_views_of_add(args@, more@);
                assert(self@.take(i as int + 1).drop_last() =~= self@.take(i as int));
            }
            args.append(&mut more);
            i += 1;
        }
        assert(self@.take(i as int) =~= self@);
        args
    }
}

impl ToRedisArgs for () {
    open spec fn args_view(&self) -> Seq<ValueView> {
        Seq::empty()
    }

    fn to_redis_args(&self) -> (args: Vec<Value>) {
        let args: Vec<Value> = Vec::new();
        assert(views_of(args@) =~= Seq::<ValueView>::empty());
        args
    }
}

impl<T1: ToRedisArgs> ToRedisArgs for (T1,) {
    open spec fn args_view(&self) -> Seq<ValueView> {
        self.0.args_view()
    }

    fn to_redis_args(&self) -> (args: Vec<Value>) {
        let mut args = self.0.to_redis_args();
        args
    }
}

impl<T1: ToRedisArgs, T2: ToRedisArgs> ToRedisArgs for (T1, T2) {
    open spec fn args_view(&self) -> Seq<ValueView> {
        self.0.args_view() + self.1.args_view()
    }

    fn to_redis_args(&self) -> (args: Vec<Value>) {
        let mut args = self.0.to_redis_args();
        let mut part1 = self.1.to_redis_args();
        proof {
            lemma_views_of_add(args@, part1@);
        }
        args.append(&mut part1);
        args
    }
}

impl<T1: ToRedisArgs, T2: ToRedisArgs, T3: ToRedisArgs> ToRedisArgs for (T1, T2, T3) {
    open spec fn args_view(&self) -> Seq<ValueView> {
        self.0.args_view() + self.1.args_view() + self.2.args_view()
    }

    fn to_redis_args(&self) -> (args: Vec<Value>) {
        let mut args = self.0.to_redis_args();
        let mut part1 = self.1.to_redis_args();
        proof {
            lemma_views_of_add(args@, part1@);
        }
        args.append(&mut part1);
        let mut part2 = self.2.to_redis_args();
        proof {
            lemma_views_of_add(args@, part2@);
        }
        args.append(&mut part2);
        args
    }
}

impl<
    T1: ToRedisArgs,
    T2: ToRedisArgs,
    T3: ToRedisArgs,
    T4: ToRedisArgs,
> ToRedisArgs for (T1, T2, T3, T4) {
    open spec fn args_view(&self) -> Seq<ValueView> {
        self.0.args_view() + self.1.args_view() + self.2.args_view() + self.3.args_view()
    }

    fn to_redis_args(&self) -> (args: Vec<Value>) {
        let mut args = self.0.to_redis_args();
        let mut part1 = self.1.to_redis_args();
        proof {
            lemma_views_of_add(args@, part1@);
        }
        args.append(&mut part1);
        let mut part2 = self.2.to_redis_args();
        proof {
            lemma_views_of_add(args@, part2@);
        }
        args.append(&mut part2);
        let mut part3 = self.3.to_redis_args();
        proof {
            lemma_views_of_add(args@, part3@);
        }
        args.append(&mut part3);
        args
    }
}

impl<
    T1: ToRedisArgs,
    T2: ToRedisArgs,
    T3: ToRedisArgs,
    T4: ToRedisArgs,
    T5: ToRedisArgs,
> ToRedisArgs for (T1, T2, T3, T4, T5) {
    open spec fn args_view(&self) -> Seq<ValueView> {
        self.0.args_view() + self.1.args_view() + self.2.args_view() + self.3.args_view()
            + self.4.args_view()
    }

    fn to_redis_args(&self) -> (args: Vec<Value>) {
        let mut args = self.0.to_redis_args();
        let mut part1 = self.1.to_redis_args();
        proof {
            lemma_views_of_add(args@, part1@);
        }
        args.append(&mut part1);
        let mut part2 = self.2.to_redis_args();
        proof {
            lemma_views_of_add(args@, part2@);
        }
        args.append(&mut part2);
        let mut part3 = self.3.to_redis_args();
        proof {
            lemma_views_of_add(args@, part3@);
        }
        args.append(&mut part3);
        let mut part4 = self.4.to_redis_args();
        proof {
            lemma_views_of_add(args@, part4@);
        }
        args.append(&mut part4);
        args
    }
}

impl<
    T1: ToRedisArgs,
    T2: ToRedisArgs,
    T3: ToRedisArgs,
    T4: ToRedisArgs,
    T5: ToRedisArgs,
    T6: ToRedisArgs,
> ToRedisArgs for (T1, T2, T3, T4, T5, T6) {
    open spec fn args_view(&self) -> Seq<ValueView> {
        self.0.args_view() + self.1.args_view() + self.2.args_view() + self.3.args_view()
            + self.4.args_view() + self.5.args_view()
    }

    fn to_redis_args(&self) -> (args: Vec<Value>) {
        let mut args = self.0.to_redis_args();
        let mut part1 = self.1.to_redis_args();
        proof {
            lemma_views_of_add(args@, part1@);
        }
        args.append(&mut part1);
        let mut part2 = self.2.to_redis_args();
        proof {
            lemma_views_of_add(args@, part2@);
        }
        args.append(&mut part2);
        let mut part3 = self.3.to_redis_args();
        proof {
            lemma_views_of_add(args@, part3@);
        }
        args.append(&mut part3);
        let mut part4 = self.4.to_redis_args();
        proof {
            lemma_views_of_add(args@, part4@);
        }
        args.append(&mut part4);
        let mut part5 = self.5.to_redis_args();
        proof {
            lemma_views_of_add(args@, part5@);
        }
        args.append(&mut part5);
        args
    }
}

impl<
    T1: ToRedisArgs,
    T2: ToRedisArgs,
    T3: ToRedisArgs,
    T4: ToRedisArgs,
    T5: ToRedisArgs,
    T6: ToRedisArgs,
    T7: ToRedisArgs,
> ToRedisArgs for (T1, T2, T3, T4, T5, T6, T7) {
    open spec fn args_view(&self) -> Seq<ValueView> {
        self.0.args_view() + self.1.args_view() + self.2.args_view() + self.3.args_view()
            + self.4.args_view() + self.5.args_view() + self.6.args_view()
    }

    fn to_redis_args(&self) -> (args: Vec<Value>) {
        let mut args = self.0.to_redis_args();
        let mut part1 = self.1.to_redis_args();
        proof {
            lemma_views_of_add(args@, part1@);
        }
        args.append(&mut part1);
        let mut part2 = self.2.to_redis_args();
        proof {
            lemma_views_of_add(args@, part2@);
        }
        args.append(&mut part2);
        let mut part3 = self.3.to_redis_args();
        proof {
            lemma_views_of_add(args@, part3@);
        }
        args.append(&mut part3);
        let mut part4 = self.4.to_redis_args();
        proof {
            lemma_views_of_add(args@, part4@);
        }
        args.append(&mut part4);
        let mut part5 = self.5.to_redis_args();
        proof {
            lemma_views_of_add(args@, part5@);
        }
        args.append(&mut part5);
        let mut part6 = self.6.to_redis_args();
        proof {
            lemma_views_of_add(args@, part6@);
        }
        args.append(&mut part6);
        args
    }
}

impl<
    T1: ToRedisArgs,
    T2: ToRedisArgs,
    T3: ToRedisArgs,
    T4: ToRedisArgs,
    T5: ToRedisArgs,
    T6: ToRedisArgs,
    T7: ToRedisArgs,
    T8: ToRedisArgs,
> ToRedisArgs for (T1, T2, T3, T4, T5, T6, T7, T8) {
    open spec fn args_view(&self) -> Seq<ValueView> {
        self.0.args_view() + self.1.args_view() + self.2.args_view() + self.3.args_view()
            + self.4.args_view() + self.5.args_view() + self.6.args_view() + self.7.args_view()
    }

    fn to_redis_args(&self) -> (args: Vec<Value>) {
        let mut args = self.0.to_redis_args();
        let mut part1 = self.1.to_redis_args();
        proof {
            lemma_views_of_add(args@, part1@);
        }
        args.append(&mut part1);
        let mut part2 = self.2.to_redis_args();
        proof {
            lemma_views_of_add(args@, part2@);
        }
        args.append(&mut part2);
        let mut part3 = self.3.to_redis_args();
        proof {
            lemma_views_of_add(args@, part3@);
        }
        args.append(&mut part3);
        let mut part4 = self.4.to_redis_args();
        proof {
            lemma_views_of_add(args@, part4@);
        }
        args.append(&mut part4);
        let mut part5 = self.5.to_redis_args();
        proof {
            lemma_views_of_add(args@, part5@);
        }
        args.append(&mut part5);
        let mut part6 = self.6.to_redis_args();
        proof {
            lemma_views_of_add(args@, part6@);
        }
        args.append(&mut part6);
        let mut part7 = self.7.to_redis_args();
        proof {
            lemma_views_of_add(args@, part7@);
        }
        args.append(&mut part7);
        args
    }
}

/// The bytes that one argument stands for, if it stands for any: a
/// string as it is, an integer as decimal text, a truth value as `1`
/// or `0`.
pub open spec fn arg_bytes(arg: ValueView) -> Option<Seq<u8>> {
    match arg {
        ValueView::String(bytes) => Some(bytes),
        ValueView::Int(n) => Some(decimal(n as int)),
        ValueView::Bool(b) => Some(
            if b {
                seq![49u8]
            } else {
                seq![48u8]
            },
        ),
        _ => None,
    }
}

/// The bytes of the first argument that stands for bytes; empty if none
/// does.
pub open spec fn first_bytes(args: Seq<ValueView>) -> Seq<u8>
    decreases args.len(),
{
    if args.len() == 0 {
        Seq::empty()
    } else {
        match arg_bytes(args[0]) {
            Some(bytes) => bytes,
            None => first_bytes(args.drop_first()),
        }
    }
}

/// The bytes of each argument that stands for bytes, in order.
pub open spec fn all_bytes(args: Seq<ValueView>) -> Seq<Seq<u8>>
    decreases args.len(),
{
    if args.len() == 0 {
        Seq::empty()
    } else {
        match arg_bytes(args.last()) {
            Some(bytes) => all_bytes(args.drop_last()).push(bytes),
            None => all_bytes(args.drop_last()),
        }
    }
}

/// The bytes that `arg` stands for.
pub fn value_bytes(arg: &Value) -> (bytes: Option<Vec<u8>>)
    ensures
        match bytes {
            Some(b) => arg_bytes(arg@) == Some(b@),
            None => arg_bytes(arg@) is None,
        },
{
    match arg {
        Value::String(s) => Some(copy_bytes(s.as_slice())),
        Value::Int(n) => Some(format_i64(*n)),
        Value::Bool(b) => {
            let mut out: Vec<u8> = Vec::new();
            out.push(
                if *b {
                    49u8
                } else {
                    48u8
                },
            );
            assert(out@ =~= if *b {
                seq![49u8]
            } else {
                seq![48u8]
            });
            Some(out)
        },
        _ => None,
    }
}

/// The bytes that the arguments of `v` boil down to: those of the first
/// argument that stands for bytes.
pub fn value_to_vec<V: ToRedisArgs>(v: &V) -> (bytes: Vec<u8>)
    ensures
        bytes@ == first_bytes(v.args_view()),
{
    let args = v.to_redis_args();
    let ghost views = views_of(args@);
    let mut i: usize = 0;
    assert(views.skip(0) =~= views);
    while i < args.len()
        invariant
            i <= args.len(),
            views == views_of(args@),
            views == v.args_view(),
            first_bytes(views) == first_bytes(views.skip(i as int)),
        decreases args.len() - i,
    {
        assert(views.skip(i as int)[0] == args@[i as int]@);
        assert(views.skip(i as int).drop_first() =~= views.skip(i as int + 1));
        match value_bytes(&args[i]) {
            Some(bytes) => {
                assert(arg_bytes(views.skip(i as int)[0]) == Some(bytes@));
                assert(first_bytes(views.skip(i as int)) == bytes@);
                return bytes;
            },
            None => {
                assert(first_bytes(views.skip(i as int)) == first_bytes(
                    views.skip(i as int + 1),
                ));
            },
        }
        i += 1;
    }
    let empty: Vec<u8> = Vec::new();
    assert(empty@ =~= first_bytes(views.skip(i as int)));
    empty
}

/// The bytes of every argument of `v` that stands for bytes.
pub fn values_to_vecs<V: ToRedisArgs>(v: &V) -> (list: Vec<Vec<u8>>)
    ensures
        crate::types::list_view(list@) == all_bytes(v.args_view()),
{
    let args = v.to_redis_args();
    let ghost views = views_of(args@);
    let mut list: Vec<Vec<u8>> = Vec::new();
    let mut i: usize = 0;
    assert(crate::types::list_view(list@) =~= all_bytes(views.take(0)));
    while i < args.len()
        invariant
            i <= args.len(),
            views == views_of(args@),
            crate::types::list_view(list@) == all_bytes(views.take(i as int)),
        decreases args.len() - i,
    {
        assert(views.take(i as int + 1).drop_last() =~= views.take(i as int));
        assert(views.take(i as int + 1).last() == args@[i as int]@);
        let ghost so_far = crate::types::list_view(list@);
        match value_bytes(&args[i]) {
            Some(bytes) => {
                list.push(bytes);
                assert(crate::types::list_view(list@) =~= so_far.push(bytes@));
            },
            None => {},
        }
        i += 1;
    }
    assert(views.take(i as int) =~= views);
    list
}

/// Types that a reply can be read as.
pub trait FromRedisValue: Sized + DeepView {
    /// What the reply reads as, if it can be read as this type.
    spec fn decoded(v: ValueView) -> Option<<Self as DeepView>::V>;

    /// Reads the reply as this type; a reply that cannot be read so is a
    /// `ParseError`.
    fn from_redis_value(v: Value) -> (r: Result<Self, RedisError>)
        ensures
            match r {
                Ok(x) => Self::decoded(v@) == Some(x.deep_view()),
                Err(e) => e is ParseError && Self::decoded(v@) is None,
            },
    ;
}

/// Whether a byte string reads as "yes": it is `1`, or `true` in any
/// mix of upper and lower case.
pub open spec fn truthy(bytes: Seq<u8>) -> bool {
    bytes == seq![49u8] || same_ignoring_case(bytes, seq![116u8, 114u8, 117u8, 101u8])
}

impl FromRedisValue for String {
    /// A string reads as the text it encodes, an integer as its decimal
    /// text, a truth value as `true` or `false`, the plain success
    /// reply as `OK`, and nothing as the empty text.
    open spec fn decoded(v: ValueView) -> Option<Seq<char>> {
        match v {
            ValueView::String(bytes) => if valid_utf8(bytes) {
                Some(decode_utf8(bytes))
            } else {
                None
            },
            ValueView::Int(n) => Some(decode_utf8(decimal(n as int))),
            ValueView::Null => Some(Seq::empty()),
            ValueView::Okay => Some("OK"@),
            ValueView::Bool(b) => Some(
                if b {
                    "true"@
                } else {
                    "false"@
                },
            ),
            _ => None,
        }
    }

    fn from_redis_value(v: Value) -> (r: Result<Self, RedisError>) {
        match v {
            Value::String(bytes) => match string_from_utf8(bytes) {
                Some(text) => Ok(text),
                None => Err(RedisError::ParseError),
            },
            Value::Int(n) => {
                let text = format_i64(n);
                proof {
                    lemma_decimal_is_ascii(n as int);
                    lemma_ascii_is_utf8(text@);
                }
                match string_from_utf8(text) {
                    Some(text) => Ok(text),
                    None => Err(RedisError::ParseError),
                }
            },
            Value::Null => Ok(String::new()),
            Value::Okay => Ok("OK".to_owned()),
            Value::Bool(b) => Ok(
                if b {
                    "true".to_owned()
                } else {
                    "false".to_owned()
                },
            ),
            _ => Err(RedisError::ParseError),
        }
    }
}

/// Decimal text is made of bytes below 128.
pub proof fn lemma_decimal_is_ascii(n: int)
    ensures
        forall|i: int| 0 <= i < decimal(n).len() ==> (#[trigger] decimal(n)[i]) < 128,
{
    if n < 0 {
        lemma_digits((-n) as nat);
        let d = crate::numbers::digits((-n) as nat);
        assert forall|i: int| 0 <= i < decimal(n).len() implies (#[trigger] decimal(n)[i])
            < 128 by {
            if i > 0 {
                assert(decimal(n)[i] == d[i - 1]);
                assert(crate::numbers::is_digit(d[i - 1]));
            }
        }
    } else {
        lemma_digits(n as nat);
        let d = crate::numbers::digits(n as nat);
        assert forall|i: int| 0 <= i < decimal(n).len() implies (#[trigger] decimal(n)[i])
            < 128 by {
            assert(crate::numbers::is_digit(d[i]));
        }
    }
}

impl FromRedisValue for Vec<u8> {
    /// Only a string reads as bytes.
    open spec fn decoded(v: ValueView) -> Option<Seq<u8>> {
        match v {
            ValueView::String(bytes) => Some(bytes),
            _ => None,
        }
    }

    fn from_redis_value(v: Value) -> (r: Result<Self, RedisError>) {
        match v {
            Value::String(bytes) => Ok(bytes),
            _ => Err(RedisError::ParseError),
        }
    }
}

impl FromRedisValue for i64 {
    /// An integer reads as itself, a string as the number its decimal
    /// text denotes, a truth value as one or zero.
    open spec fn decoded(v: ValueView) -> Option<i64> {
        match v {
            ValueView::Int(n) => Some(n),
            ValueView::String(bytes) => parse_i64_spec(bytes),
            ValueView::Bool(b) => Some(
                if b {
                    1i64
                } else {
                    0i64
                },
            ),
            _ => None,
        }
    }

    fn from_redis_value(v: Value) -> (r: Result<Self, RedisError>) {
        match v {
            Value::Int(n) => Ok(n),
            Value::String(bytes) => match parse_i64(bytes.as_slice()) {
                Some(n) => Ok(n),
                None => Err(RedisError::ParseError),
            },
            Value::Bool(b) => Ok(
                if b {
                    1
                } else {
                    0
                },
            ),
            _ => Err(RedisError::ParseError),
        }
    }
}

impl FromRedisValue for u64 {
    /// Whatever reads as a signed integer, its 64 bits read as unsigned.
    open spec fn decoded(v: ValueView) -> Option<u64> {
        match <i64 as FromRedisValue>::decoded(v) {
            Some(n) => Some(n as u64),
            None => None,
        }
    }

    fn from_redis_value(v: Value) -> (r: Result<Self, RedisError>) {
        match <i64 as FromRedisValue>::from_redis_value(v) {
            Ok(n) => Ok(n as u64),
            Err(e) => Err(e),
        }
    }
}

impl FromRedisValue for isize {
    open spec fn decoded(v: ValueView) -> Option<isize> {
        match <i64 as FromRedisValue>::decoded(v) {
            Some(n) => Some(n as isize),
            None => None,
        }
    }

    fn from_redis_value(v: Value) -> (r: Result<Self, RedisError>) {
        match <i64 as FromRedisValue>::from_redis_value(v) {
            Ok(n) => Ok(n as isize),
            Err(e) => Err(e),
        }
    }
}

impl FromRedisValue for usize {
    open spec fn decoded(v: ValueView) -> Option<usize> {
        match <i64 as FromRedisValue>::decoded(v) {
            Some(n) => Some(n as usize),
            None => None,
        }
    }

    fn from_redis_value(v: Value) -> (r: Result<Self, RedisError>) {
        match <i64 as FromRedisValue>::from_redis_value(v) {
            Ok(n) => Ok(n as usize),
            Err(e) => Err(e),
        }
    }
}

impl FromRedisValue for bool {
    /// A truth value reads as itself, an integer as whether it is not
    /// zero, a string of valid text as whether it says yes, and nothing
    /// as no.
    open spec fn decoded(v: ValueView) -> Option<bool> {
        match v {
            ValueView::Bool(b) => Some(b),
            ValueView::Int(n) => Some(n != 0),
            ValueView::String(bytes) => if valid_utf8(bytes) {
                Some(truthy(bytes))
            } else {
                None
            },
            ValueView::Null => Some(false),
            _ => None,
        }
    }

    fn from_redis_value(v: Value) -> (r: Result<Self, RedisError>) {
        match v {
            Value::Bool(b) => Ok(b),
            Value::Int(n) => Ok(n != 0),
            Value::String(bytes) => {
                let copy = copy_bytes(bytes.as_slice());
                match string_from_utf8(bytes) {
                    Some(_) => {
                        let mut one: Vec<u8> = Vec::new();
                        one.push(49u8);
                        let mut yes: Vec<u8> = Vec::new();
                        yes.push(116u8);
                        yes.push(114u8);
                        yes.push(117u8);
                        yes.push(101u8);
                        assert(one@ =~= seq![49u8]);
                        assert(yes@ =~= seq![116u8, 114u8, 117u8, 101u8]);
                        Ok(
                            bytes_eq(copy.as_slice(), one.as_slice()) || eq_ignore_ascii_case(
                                copy.as_slice(),
                                yes.as_slice(),
                            ),
                        )
                    },
                    None => Err(RedisError::ParseError),
                }
            },
            Value::Null => Ok(false),
            _ => Err(RedisError::ParseError),
        }
    }
}

impl FromRedisValue for () {
    /// Nothing and the plain success reply read as the unit.
    open spec fn decoded(v: ValueView) -> Option<()> {
        match v {
            ValueView::Null => Some(()),
            ValueView::Okay => Some(()),
            _ => None,
        }
    }

    fn from_redis_value(v: Value) -> (r: Result<Self, RedisError>) {
        match v {
            Value::Null => Ok(()),
            Value::Okay => Ok(()),
            _ => Err(RedisError::ParseError),
        }
    }
}

impl<T: FromRedisValue> FromRedisValue for Option<T> {
    /// Nothing reads as `None`; anything else as `Some` of what it reads
    /// as.
    open spec fn decoded(v: ValueView) -> Option<Option<<T as DeepView>::V>> {
        match v {
            ValueView::Null => Some(None),
            _ => match T::decoded(v) {
                Some(x) => Some(Some(x)),
                None => None,
            },
        }
    }

    fn from_redis_value(v: Value) -> (r: Result<Self, RedisError>) {
        match v {
            Value::Null => Ok(None),
            v => match T::from_redis_value(v) {
                Ok(x) => Ok(Some(x)),
                Err(e) => Err(e),
            },
        }
    }
}

/// Whether every reply of `items` can be read as a `T`.
pub open spec fn all_decodable<T: FromRedisValue>(items: Seq<ValueView>) -> bool {
    forall|i: int| 0 <= i < items.len() ==> T::decoded(#[trigger] items[i]) is Some
}

/// What the replies of `items` read as, one by one.
pub open spec fn decoded_items<T: FromRedisValue>(items: Seq<ValueView>) -> Seq<
    <T as DeepView>::V,
> {
    Seq::new(items.len(), |i: int| T::decoded(items[i])->0)
}

/// The items of `v`, last first.
fn reversed(v: Vec<Value>) -> (r: Vec<Value>)
    ensures
        r@.len() == v@.len(),
        forall|i: int| 0 <= i < r@.len() ==> #[trigger] r@[i] == v@[v@.len() - 1 - i],
{
    let ghost all = v@;
    let mut v = v;
    let mut r: Vec<Value> = Vec::new();
    while v.len() > 0
        invariant
            v@.len() + r@.len() == all.len(),
            forall|i: int| 0 <= i < v@.len() ==> #[trigger] v@[i] == all[i],
            forall|i: int| 0 <= i < r@.len() ==> #[trigger] r@[i] == all[all.len() - 1 - i],
        decreases v@.len(),
    {
        match v.pop() {
            Some(x) => {
                r.push(x);
            },
            None => {},
        }
    }
    r
}

impl<T: FromRedisValue> FromRedisValue for Vec<T> {
    /// An array reads as the list of what its items read as, provided
    /// that each of them can be read; nothing reads as the empty list.
    open spec fn decoded(v: ValueView) -> Option<Seq<<T as DeepView>::V>> {
        match v {
            ValueView::Array(items) => if all_decodable::<T>(items) {
                Some(decoded_items::<T>(items))
            } else {
                None
            },
            ValueView::Null => Some(Seq::empty()),
            _ => None,
        }
    }

    fn from_redis_value(v: Value) -> (r: Result<Self, RedisError>) {
        let ghost reply = v@;
        match v {
            Value::Array(items) => {
                proof {
                    lemma_array_view(items);
                }
                let ghost all = views_of(items@);
                assert(reply == ValueView::Array(all));
                let mut rest = reversed(items);
                let mut out: Vec<T> = Vec::new();
                while rest.len() > 0
                    invariant
                        reply == v@,
                        reply == ValueView::Array(all),
                        rest@.len() + out@.len() == all.len(),
                        forall|i: int|
                            0 <= i < rest@.len() ==> (#[trigger] rest@[i])@ == all[all.len() - 1
                                - i],
                        forall|i: int|
                            0 <= i < out@.len() ==> T::decoded(all[i]) == Some(
                                (#[trigger] out@[i]).deep_view(),
                            ),
                    decreases rest@.len(),
                {
                    let ghost at = out@.len() as int;
                    match rest.pop() {
                        Some(item) => {
                            assert(item@ == all[at]);
                            match T::from_redis_value(item) {
                                Ok(x) => {
                                    out.push(x);
                                },
                                Err(e) => {
                                    assert(T::decoded(all[at]) is None);
                                    assert(!all_decodable::<T>(all));
                                    return Err(RedisError::ParseError);
                                },
                            }
                        },
                        None => {},
                    }
                }
                assert forall|i: int| 0 <= i < all.len() implies T::decoded(
                    #[trigger] all[i],
                ) is Some by {
                    assert(T::decoded(all[i]) == Some(out@[i].deep_view()));
                }
                assert(out.deep_view() =~= decoded_items::<T>(all));
                Ok(out)
            },
            Value::Null => {
                let out: Vec<T> = Vec::new();
                assert(out.deep_view() =~= Seq::<<T as DeepView>::V>::empty());
                Ok(out)
            },
            _ => Err(RedisError::ParseError),
        }
    }
}

impl DeepView for Value {
    type V = ValueView;

    open spec fn deep_view(&self) -> ValueView {
        self@
    }
}

impl FromRedisValue for Value {
    /// Every reply reads as itself.
    open spec fn decoded(v: ValueView) -> Option<ValueView> {
        Some(v)
    }

    fn from_redis_value(v: Value) -> (r: Result<Self, RedisError>) {
        Ok(v)
    }
}

/// Whether `x` survives the trip: it becomes exactly one argument, and
/// that argument, taken as a reply, reads as `x` again.
pub open spec fn round_trips<T: ToRedisArgs + FromRedisValue>(x: T) -> bool {
    x.args_view().len() == 1 && T::decoded(x.args_view()[0]) == Some(x.deep_view())
}

/// Every signed 64-bit integer survives the trip.
pub proof fn lemma_round_trip_i64(n: i64)
    ensures
        round_trips(n),
{
}

/// Every unsigned 64-bit integer survives the trip.
pub proof fn lemma_round_trip_u64(n: u64)
    ensures
        round_trips(n),
{
    assert((n as i64) as u64 == n) by (bit_vector);
}

/// Every unsigned machine word survives the trip.
pub proof fn lemma_round_trip_usize(n: usize)
    ensures
        round_trips(n),
{
    assert((n as i64) as usize == n) by (bit_vector);
}

/// Every signed machine word survives the trip.
pub proof fn lemma_round_trip_isize(n: isize)
    ensures
        round_trips(n),
{
    assert((n as i64) as isize == n) by (bit_vector);
}

/// Every truth value survives the trip.
pub proof fn lemma_round_trip_bool(b: bool)
    ensures
        round_trips(b),
{
}

/// Every byte string survives the trip.
pub proof fn lemma_round_trip_bytes(bytes: Vec<u8>)
    ensures
        round_trips(bytes),
{
    assert(bytes.deep_view() =~= bytes@);
}

/// Every text survives the trip.
pub proof fn lemma_round_trip_string(text: String)
    ensures
        round_trips(text),
{
    vstd::utf8::encode_utf8_valid_utf8(text@);
    vstd::utf8::encode_utf8_decode_utf8(text@);
}

/// An optional value survives the trip if it is `None`, or holds a
/// value that survives and does not become the null argument.
pub proof fn lemma_round_trip_option<T: ToRedisArgs + FromRedisValue>(x: Option<T>)
    requires
        x matches Some(inner) ==> round_trips(inner) && !(inner.args_view()[0] is Null),
    ensures
        round_trips(x),
{
}

/// A list whose items survive the trip reads back, from the array of
/// its arguments, as itself.
pub proof fn lemma_round_trip_list<T: ToRedisArgs + FromRedisValue>(items: Vec<T>)
    requires
        forall|i: int| 0 <= i < items@.len() ==> round_trips(#[trigger] items@[i]),
    ensures
        items.args_view().len() == items@.len(),
        <Vec<T> as FromRedisValue>::decoded(ValueView::Array(items.args_view())) == Some(
            items.deep_view(),
        ),
{
    lemma_flat_args_singles(items@);
    let args = items.args_view();
    assert forall|i: int| 0 <= i < args.len() implies T::decoded(#[trigger] args[i]) is Some by {
        assert(round_trips(items@[i]));
    }
    assert(decoded_items::<T>(args) =~= items.deep_view()) by {
        assert forall|i: int| 0 <= i < args.len() implies decoded_items::<T>(args)[i]
            == items.deep_view()[i] by {
            assert(round_trips(items@[i]));
        }
    }
}

/// Items that each become one argument become, together, one argument
/// each.
pub proof fn lemma_flat_args_singles<T: ToRedisArgs>(items: Seq<T>)
    requires
        forall|i: int| 0 <= i < items.len() ==> (#[trigger] items[i]).args_view().len() == 1,
    ensures
        flat_args(items).len() == items.len(),
        forall|i: int| 0 <= i < items.len() ==> flat_args(items)[i] == (
        #[trigger] items[i]).args_view()[0],
    decreases items.len(),
{
    if items.len() > 0 {
        let front = items.drop_last();
        assert forall|i: int| 0 <= i < front.len() implies (#[trigger] front[i]).args_view().len()
            == 1 by {
            assert(front[i] == items[i]);
        }
        lemma_flat_args_singles(front);
        assert forall|i: int| 0 <= i < items.len() implies flat_args(items)[i] == (
        #[trigger] items[i]).args_view()[0] by {
            if i < front.len() {
                assert(front[i] == items[i]);
            }
        }
    }
}

} // verus!
