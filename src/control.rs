use vstd::prelude::*;
use vstd::string::StrSliceExecFns;
use vstd::string::StringExecFns;
use crate::ctrl_name::{ctrl_name_of, ToCtrlName};

verus! {

/// The value of a decimal digit character.
pub open spec fn digit_value(c: char) -> int {
    c as int - '0' as int
}

/// A non-empty run of ASCII decimal digits.
pub open spec fn all_digits(s: Seq<char>) -> bool {
    s.len() > 0 && forall|i: int| 0 <= i < s.len() ==> '0' <= #[trigger] s[i] <= '9'
}

/// The number that a run of decimal digits spells.
pub open spec fn digits_number(s: Seq<char>) -> int
    decreases s.len(),
{
    if s.len() == 0 {
        0
    } else {
        digits_number(s.drop_last()) * 10 + digit_value(s.last())
    }
}

/// The integer a text spells: an optional `+` or `-` followed by decimal
/// digits, nothing else.
pub open spec fn decimal_of(s: Seq<char>) -> Option<int> {
    if s.len() > 0 && s[0] == '-' && all_digits(s.drop_first()) {
        Some(-digits_number(s.drop_first()))
    } else if s.len() > 0 && s[0] == '+' && all_digits(s.drop_first()) {
        Some(digits_number(s.drop_first()))
    } else if all_digits(s) {
        Some(digits_number(s))
    } else {
        None
    }
}

/// The `i64` a text spells, if it spells one in range.
pub open spec fn i64_of(s: Seq<char>) -> Option<i64> {
    match decimal_of(s) {
        Some(v) => if i64::MIN <= v <= i64::MAX { Some(v as i64) } else { None },
        None => None,
    }
}

/// The boolean a text spells: exactly `true` or `false`.
pub open spec fn bool_of(s: Seq<char>) -> Option<bool> {
    if s == seq!['t', 'r', 'u', 'e'] {
        Some(true)
    } else if s == seq!['f', 'a', 'l', 's', 'e'] {
        Some(false)
    } else {
        None
    }
}

/// Relies on `<i64 as FromStr>::from_str`: it accepts an optional sign and
/// decimal digits whose value fits, and nothing else.
#[verifier::external_body]
fn parse_i64(s: &str) -> (r: Option<i64>)
    ensures
        r == i64_of(s@),
{
    s.parse::<i64>().ok()
}

/// Whether two texts hold the same characters.
fn same_text(a: &str, b: &str) -> (r: bool)
    ensures
        r == (a@ == b@),
{
    let n = a.unicode_len();
    if n != b.unicode_len() {
        return false;
    }
    let mut i: usize = 0;
    while i < n
        invariant
            n == a@.len() == b@.len(),
            i <= n,
            forall|j: int| 0 <= j < i ==> a@[j] == b@[j],
        decreases n - i,
    {
        if a.get_char(i) != b.get_char(i) {
            return false;
        }
        i = i + 1;
    }
    assert(a@ =~= b@);
    true
}

/// Reads exactly `true` or `false`.
fn parse_bool(s: &str) -> (r: Option<bool>)
    ensures
        r == bool_of(s@),
{
    proof {
        reveal_strlit("true");
        reveal_strlit("false");
        assert("true"@ =~= seq!['t', 'r', 'u', 'e']);
        assert("false"@ =~= seq!['f', 'a', 'l', 's', 'e']);
    }
    if same_text(s, "true") {
        Some(true)
    } else if same_text(s, "false") {
        Some(false)
    } else {
        None
    }
}

/// A value a user asks a control to take.
#[derive(Debug, PartialEq)]
pub enum Value {
    Integer(i64),
    Boolean(bool),
    String(String),
}

/// `v` is what the text `s` reads as: an integer if it spells one, else a
/// boolean if it spells one, else the text itself.
pub open spec fn value_reads(v: Value, s: Seq<char>) -> bool {
    match i64_of(s) {
        Some(i) => v == Value::Integer(i),
        None => match bool_of(s) {
            Some(b) => v == Value::Boolean(b),
            None => v matches Value::String(t) && t@ == s,
        },
    }
}

impl Value {
    /// Reads a request's value text.
    pub fn from_text(s: &str) -> (r: Value)
        ensures
            value_reads(r, s@),
    {
        if let Some(i) = parse_i64(s) {
            Value::Integer(i)
        } else if let Some(b) = parse_bool(s) {
            Value::Boolean(b)
        } else {
            Value::String(String::from_str(s))
        }
    }

    pub fn duplicate(&self) -> (r: Value)
        ensures
            r == *self,
    {
        match self {
            Value::Integer(i) => Value::Integer(*i),
            Value::Boolean(b) => Value::Boolean(*b),
            Value::String(s) => Value::String(s.clone()),
        }
    }
}

/// The value of a device control.
#[derive(Debug, PartialEq)]
pub enum ControlValue {
    Integer(i64),
    Boolean(bool),
    String(String),
}

/// The control value that a requested value becomes.
pub open spec fn control_value_of(v: Value) -> ControlValue {
    match v {
        Value::Integer(i) => ControlValue::Integer(i),
        Value::Boolean(b) => ControlValue::Boolean(b),
        Value::String(s) => ControlValue::String(s),
    }
}

impl ControlValue {
    pub fn from_value(v: Value) -> (r: ControlValue)
        ensures
            r == control_value_of(v),
    {
        match v {
            Value::Integer(i) => ControlValue::Integer(i),
            Value::Boolean(b) => ControlValue::Boolean(b),
            Value::String(s) => ControlValue::String(s),
        }
    }

    pub fn duplicate(&self) -> (r: ControlValue)
        ensures
            r == *self,
    {
        match self {
            ControlValue::Integer(i) => ControlValue::Integer(*i),
            ControlValue::Boolean(b) => ControlValue::Boolean(*b),
            ControlValue::String(s) => ControlValue::String(s.clone()),
        }
    }
}

/// A control setting to apply to a device: the control's id and its value.
#[derive(Debug, PartialEq)]
pub struct Control {
    pub id: u32,
    pub value: ControlValue,
}

/// The position of the first `=` in a text, if it has one.
pub open spec fn first_eq(s: Seq<char>) -> Option<int>
    decreases s.len(),
{
    if s.len() == 0 {
        None
    } else {
        match first_eq(s.drop_last()) {
            Some(i) => Some(i),
            None => if s.last() == '=' { Some(s.len() - 1) } else { None },
        }
    }
}

/// The comma-separated pieces of a text, empty pieces included.
pub open spec fn comma_pieces(s: Seq<char>) -> Seq<Seq<char>>
    decreases s.len(),
{
    if s.len() == 0 {
        seq![Seq::empty()]
    } else {
        let parts = comma_pieces(s.drop_last());
        if s.last() == ',' {
            parts.push(Seq::empty())
        } else {
            parts.update(parts.len() - 1, parts.last().push(s.last()))
        }
    }
}

/// The error text for a request without a value.
pub open spec fn no_value_message(s: Seq<char>) -> Seq<char> {
    "value not found ["@ + s + "]"@
}

/// A request to set the control `name` to `value`.
pub struct Request {
    pub name: String,
    pub value: Value,
}

/// `r` is what the request text `s` (`name=value`) reads as.
pub open spec fn request_reads(r: Request, s: Seq<char>) -> bool {
    match first_eq(s) {
        Some(i) => r.name@ == s.subrange(0, i) && value_reads(r.value, s.subrange(i + 1, s.len() as int)),
        None => false,
    }
}

proof fn lemma_first_eq_bounds(s: Seq<char>)
    ensures
        first_eq(s) matches Some(i) ==> 0 <= i < s.len() && s[i] == '=',
    decreases s.len(),
{
    if s.len() > 0 {
        lemma_first_eq_bounds(s.drop_last());
    }
}

impl Request {
    pub fn new(name: &str, value: Value) -> (r: Request)
        ensures
            r.name@ == name@,
            r.value == value,
    {
        Request { name: String::from_str(name), value }
    }

    /// Reads `name=value`, split at the first `=`. Without an `=` it is an
    /// error naming the text.
    pub fn parse(text: &str) -> (r: Result<Request, String>)
        ensures
            r is Ok <==> first_eq(text@) is Some,
            r matches Ok(req) ==> request_reads(req, text@),
            r matches Err(e) ==> e@ == no_value_message(text@),
    {
        let n = text.unicode_len();
        let mut i: usize = 0;
        while i < n
            invariant
                n == text@.len(),
                i <= n,
                first_eq(text@.subrange(0, i as int)) is None,
            decreases n - i,
        {
            assert(text@.subrange(0, i + 1).drop_last() == text@.subrange(0, i as int));
            if text.get_char(i) == '=' {
                assert(first_eq(text@.subrange(0, i + 1)) == Some(i as int));
                proof { lemma_first_eq_prefix(text@, i as int + 1); }
                let name = text.substring_char(0, i);
                let value = text.substring_char(i + 1, n);
                return Ok(Request { name: String::from_str(name), value: Value::from_text(value) });
            }
            i = i + 1;
        }
        assert(text@.subrange(0, n as int) == text@);
        let mut msg = String::from_str("value not found [");
        msg.append(text);
        msg.append("]");
        proof {
            reveal_strlit("value not found [");
            reveal_strlit("]");
        }
        Err(msg)
    }
}

/// Once a prefix of `s` holds an `=`, the first `=` of `s` is the prefix's.
proof fn lemma_first_eq_prefix(s: Seq<char>, k: int)
    requires
        0 <= k <= s.len(),
        first_eq(s.subrange(0, k)) is Some,
    ensures
        first_eq(s) == first_eq(s.subrange(0, k)),
    decreases s.len() - k,
{
    if k < s.len() {
        assert(s.subrange(0, k + 1).drop_last() == s.subrange(0, k));
        lemma_first_eq_prefix(s, k + 1);
    } else {
        assert(s.subrange(0, k) == s);
    }
}

/// A set of requests, applied in order.
pub struct Requests {
    pub requests: Vec<Request>,
}

/// Extending a text keeps every finished piece of its prefix.
proof fn lemma_pieces_extend(s: Seq<char>, k: int)
    requires
        0 <= k <= s.len(),
    ensures
        comma_pieces(s).len() >= comma_pieces(s.subrange(0, k)).len(),
        comma_pieces(s.subrange(0, k)).len() >= 1,
        forall|j: int|
            0 <= j < comma_pieces(s.subrange(0, k)).len() - 1 ==> comma_pieces(s)[j]
                == #[trigger] comma_pieces(s.subrange(0, k))[j],
    decreases s.len() - k,
{
    lemma_pieces_nonempty(s.subrange(0, k));
    if k < s.len() {
        let p = s.subrange(0, k);
        let q = s.subrange(0, k + 1);
        assert(q.drop_last() == p);
        assert(q.last() == s[k]);
        lemma_pieces_nonempty(p);
        lemma_pieces_extend(s, k + 1);
        assert forall|j: int| 0 <= j < comma_pieces(p).len() - 1 implies comma_pieces(s)[j]
            == #[trigger] comma_pieces(p)[j] by {
            assert(comma_pieces(q)[j] == comma_pieces(p)[j]);
        }
    } else {
        assert(s.subrange(0, k) == s);
    }
}

proof fn lemma_pieces_nonempty(s: Seq<char>)
    ensures
        comma_pieces(s).len() >= 1,
    decreases s.len(),
{
    if s.len() > 0 {
        lemma_pieces_nonempty(s.drop_last());
    }
}

impl Requests {
    pub fn new(requests: Vec<Request>) -> (r: Requests)
        ensures
            r.requests@ == requests@,
    {
        Requests { requests }
    }

    /// Reads comma-separated `name=value` requests. The first piece without
    /// an `=` makes it an error naming that piece.
    pub fn parse(text: &str) -> (r: Result<Requests, String>)
        ensures
            r is Ok <==> forall|j: int|
                0 <= j < comma_pieces(text@).len() ==> (#[trigger] first_eq(comma_pieces(text@)[j])) is Some,
            r matches Ok(rs) ==> rs.requests@.len() == comma_pieces(text@).len() && forall|j: int|
                0 <= j < rs.requests@.len() ==> request_reads(
                    #[trigger] rs.requests@[j],
                    comma_pieces(text@)[j],
                ),
            r matches Err(e) ==> exists|j: int|
                0 <= j < comma_pieces(text@).len() && (#[trigger] first_eq(comma_pieces(text@)[j])) is None
                    && e@ == no_value_message(comma_pieces(text@)[j]) && forall|k: int|
                    0 <= k < j ==> (#[trigger] first_eq(comma_pieces(text@)[k])) is Some,
    {
        let n = text.unicode_len();
        let mut reqs: Vec<Request> = Vec::new();
        let mut start: usize = 0;
        let mut i: usize = 0;
        assert(text@.subrange(0, 0) =~= Seq::<char>::empty());
        while i < n
            invariant
                n == text@.len(),
                start <= i <= n,
                comma_pieces(text@.subrange(0, i as int)).len() == reqs@.len() + 1,
                comma_pieces(text@.subrange(0, i as int)).last() == text@.subrange(start as int, i as int),
                forall|j: int|
                    0 <= j < reqs@.len() ==> request_reads(
                        #[trigger] reqs@[j],
                        comma_pieces(text@.subrange(0, i as int))[j],
                    ) && first_eq(comma_pieces(text@.subrange(0, i as int))[j]) is Some,
            decreases n - i,
        {
            let ghost pre = text@.subrange(0, i as int);
            assert(text@.subrange(0, i + 1).drop_last() == pre);
            let c = text.get_char(i);
            if c == ',' {
                let piece = text.substring_char(start, i);
                proof { lemma_pieces_extend(text@, i + 1); }
                match Request::parse(piece) {
                    Ok(q) => {
                        reqs.push(q);
                        start = i + 1;
                    },
                    Err(e) => {
                        assert(comma_pieces(text@.subrange(0, i + 1)) == comma_pieces(pre).push(
                            Seq::empty(),
                        ));
                        assert(comma_pieces(text@.subrange(0, i + 1))[reqs@.len() as int] == piece@);
                        assert(comma_pieces(text@)[reqs@.len() as int] == piece@);
                        assert(first_eq(comma_pieces(text@)[reqs@.len() as int]) is None);
                        assert forall|k: int| 0 <= k < reqs@.len() implies (#[trigger] first_eq(
                            comma_pieces(text@)[k],
                        )) is Some by {
                            assert(request_reads(reqs@[k], comma_pieces(pre)[k]));
                            assert(first_eq(comma_pieces(pre)[k]) is Some);
                            assert(comma_pieces(text@.subrange(0, i + 1))[k] == comma_pieces(pre)[k]);
                            assert(comma_pieces(text@)[k] == comma_pieces(text@.subrange(0, i + 1))[k]);
                        }
                        return Err(e);
                    },
                }
                assert(text@.subrange(start as int, i + 1) =~= Seq::<char>::empty());
            } else {
                assert(text@.subrange(start as int, i + 1) =~= text@.subrange(start as int, i as int).push(c));
            }
            i = i + 1;
        }
        assert(text@.subrange(0, n as int) == text@);
        let piece = text.substring_char(start, n);
        assert(comma_pieces(text@)[reqs@.len() as int] == piece@);
        let ghost done = reqs@;
        match Request::parse(piece) {
            Ok(q) => {
                reqs.push(q);
                assert forall|j: int| 0 <= j < comma_pieces(text@).len() implies (#[trigger] first_eq(
                    comma_pieces(text@)[j],
                )) is Some by {
                    if j < done.len() {
                        assert(request_reads(done[j], comma_pieces(text@)[j]));
                    }
                }
                Ok(Requests { requests: reqs })
            },
            Err(e) => {
                assert(first_eq(comma_pieces(text@)[done.len() as int]) is None);
                assert forall|k: int| 0 <= k < done.len() implies (#[trigger] first_eq(
                    comma_pieces(text@)[k],
                )) is Some by {
                    assert(request_reads(done[k], comma_pieces(text@)[k]));
                }
                Err(e)
            },
        }
    }
}

/// The flag of a control that cannot be written.
pub const FLAG_READ_ONLY: u32 = 0x0004;

/// The kinds of device control.
#[derive(Clone, Copy, Debug, PartialEq, Eq, Structural)]
pub enum ControlType {
    Integer,
    Boolean,
    Menu,
    Button,
    Integer64,
    CtrlClass,
    String,
    Bitmask,
    IntegerMenu,
}

/// A control as the device describes it.
#[derive(Debug)]
pub struct Description {
    pub id: u32,
    pub typ: ControlType,
    pub name: String,
    pub minimum: i64,
    pub maximum: i64,
    pub default: i64,
    pub flags: u32,
}

/// What a settable control accepts: its id, a value of its kind (its
/// default), and its range.
#[derive(Debug)]
pub struct ControlDesc {
    pub id: u32,
    pub value: ControlValue,
    pub minimum: i64,
    pub maximum: i64,
}

/// Why a request cannot be applied.
#[derive(Debug)]
pub struct UnsupportedControlDeatil {
    pub name: String,
    pub detail: String,
}

/// The name of a requested value's kind.
pub open spec fn value_kind(v: Value) -> Seq<char> {
    match v {
        Value::Integer(_) => "Integer"@,
        Value::Boolean(_) => "Boolean"@,
        Value::String(_) => "String"@,
    }
}

/// The name of a control value's kind.
pub open spec fn control_kind(v: ControlValue) -> Seq<char> {
    match v {
        ControlValue::Integer(_) => "Integer"@,
        ControlValue::Boolean(_) => "Boolean"@,
        ControlValue::String(_) => "String"@,
    }
}

/// What is wrong with asking `d` for `v`, if anything: an integer outside the
/// range, or a value of another kind than the control's.
pub open spec fn check_detail(d: ControlDesc, v: Value) -> Option<Seq<char>> {
    match (v, d.value) {
        (Value::Integer(i), ControlValue::Integer(_)) => if i < d.minimum || i > d.maximum {
            Some("Out of range"@)
        } else {
            None
        },
        (Value::Boolean(_), ControlValue::Boolean(_)) => None,
        (Value::String(_), ControlValue::String(_)) => None,
        _ => Some("Type mismatch: "@ + value_kind(v) + " "@ + control_kind(d.value)),
    }
}

fn value_kind_name(v: &Value) -> (r: &'static str)
    ensures
        r@ == value_kind(*v),
{
    proof {
        reveal_strlit("Integer");
        reveal_strlit("Boolean");
        reveal_strlit("String");
    }
    match v {
        Value::Integer(_) => "Integer",
        Value::Boolean(_) => "Boolean",
        Value::String(_) => "String",
    }
}

fn control_kind_name(v: &ControlValue) -> (r: &'static str)
    ensures
        r@ == control_kind(*v),
{
    proof {
        reveal_strlit("Integer");
        reveal_strlit("Boolean");
        reveal_strlit("String");
    }
    match v {
        ControlValue::Integer(_) => "Integer",
        ControlValue::Boolean(_) => "Boolean",
        ControlValue::String(_) => "String",
    }
}

impl ControlDesc {
    /// What keeps `value` from being applied to this control under `name`.
    pub fn check(&self, name: &str, value: &Value) -> (r: Option<UnsupportedControlDeatil>)
        ensures
            r is Some <==> check_detail(*self, *value) is Some,
            r matches Some(u) ==> u.name@ == name@ && u.detail@ == check_detail(*self, *value)->0,
    {
        let fits = match (value, &self.value) {
            (Value::Integer(i), ControlValue::Integer(_)) => {
                if *i < self.minimum || *i > self.maximum {
                    proof { reveal_strlit("Out of range"); }
                    return Some(
                        UnsupportedControlDeatil {
                            name: String::from_str(name),
                            detail: String::from_str("Out of range"),
                        },
                    );
                }
                true
            },
            (Value::Boolean(_), ControlValue::Boolean(_)) => true,
            (Value::String(_), ControlValue::String(_)) => true,
            _ => false,
        };
        if fits {
            None
        } else {
            let mut detail = String::from_str("Type mismatch: ");
            detail.append(value_kind_name(value));
            detail.append(" ");
            detail.append(control_kind_name(&self.value));
            proof {
                reveal_strlit("Type mismatch: ");
                reveal_strlit(" ");
            }
            Some(UnsupportedControlDeatil { name: String::from_str(name), detail })
        }
    }

    pub fn duplicate(&self) -> (r: ControlDesc)
        ensures
            r == *self,
    {
        ControlDesc {
            id: self.id,
            value: self.value.duplicate(),
            minimum: self.minimum,
            maximum: self.maximum,
        }
    }
}

/// What a description contributes to a control table: nothing for a
/// read-only control or one of a kind that requests cannot address.
pub open spec fn desc_of(d: Description) -> Option<ControlDesc> {
    if d.flags & FLAG_READ_ONLY == FLAG_READ_ONLY {
        None
    } else {
        match d.typ {
            ControlType::Integer | ControlType::Integer64 | ControlType::Menu => Some(
                ControlDesc {
                    id: d.id,
                    value: ControlValue::Integer(d.default),
                    minimum: d.minimum,
                    maximum: d.maximum,
                },
            ),
            ControlType::Boolean => Some(
                ControlDesc {
                    id: d.id,
                    value: ControlValue::Boolean(d.default != 0),
                    minimum: d.minimum,
                    maximum: d.maximum,
                },
            ),
            _ => None,
        }
    }
}

/// The entries a table built from `ds` holds, in order, keyed by control
/// name.
pub open spec fn table_of(ds: Seq<Description>) -> Seq<(Seq<char>, ControlDesc)>
    decreases ds.len(),
{
    if ds.len() == 0 {
        Seq::empty()
    } else {
        let rest = table_of(ds.drop_last());
        match desc_of(ds.last()) {
            Some(c) => rest.push((ctrl_name_of(ds.last().name@), c)),
            None => rest,
        }
    }
}

/// The control a table's entries hold under `k`: the last one entered.
pub open spec fn lookup(es: Seq<(Seq<char>, ControlDesc)>, k: Seq<char>) -> Option<ControlDesc>
    decreases es.len(),
{
    if es.len() == 0 {
        None
    } else if es.last().0 == k {
        Some(es.last().1)
    } else {
        lookup(es.drop_last(), k)
    }
}

/// What is wrong with request `r` against the entries `es`, if anything.
pub open spec fn request_issue(es: Seq<(Seq<char>, ControlDesc)>, r: Request) -> Option<Seq<char>> {
    match lookup(es, r.name@) {
        None => Some("Control not found"@),
        Some(d) => check_detail(d, r.value),
    }
}

/// The (name, detail) of each request in `rs` that cannot be applied, in order.
pub open spec fn issues(es: Seq<(Seq<char>, ControlDesc)>, rs: Seq<Request>) -> Seq<(Seq<char>, Seq<char>)>
    decreases rs.len(),
{
    if rs.len() == 0 {
        Seq::empty()
    } else {
        let rest = issues(es, rs.drop_last());
        match request_issue(es, rs.last()) {
            Some(t) => rest.push((rs.last().name@, t)),
            None => rest,
        }
    }
}

/// The default setting of each requested control the table knows, in order.
pub open spec fn defaults(es: Seq<(Seq<char>, ControlDesc)>, rs: Seq<Request>) -> Seq<Control>
    decreases rs.len(),
{
    if rs.len() == 0 {
        Seq::empty()
    } else {
        let rest = defaults(es, rs.drop_last());
        match lookup(es, rs.last().name@) {
            Some(d) => rest.push(Control { id: d.id, value: d.value }),
            None => rest,
        }
    }
}

/// The requested setting of each requested control the table knows, in order.
pub open spec fn settings(es: Seq<(Seq<char>, ControlDesc)>, rs: Seq<Request>) -> Seq<Control>
    decreases rs.len(),
{
    if rs.len() == 0 {
        Seq::empty()
    } else {
        let rest = settings(es, rs.drop_last());
        match lookup(es, rs.last().name@) {
            Some(d) => rest.push(Control { id: d.id, value: control_value_of(rs.last().value) }),
            None => rest,
        }
    }
}

/// The settable controls of a device, by control name.
///
/// The entries are kept in a vector searched from its end, so that a later
/// entry under a name overrides an earlier one as a map insert would: Verus
/// proves nothing of a `BTreeMap` lookup keyed by `String`, while this
/// lookup is proved against `lookup`.
pub struct ControlTable {
    map: Vec<(String, ControlDesc)>,
}

impl ControlTable {
    /// The table's entries in the order they were entered.
    pub closed spec fn entries(&self) -> Seq<(Seq<char>, ControlDesc)> {
        self.map@.map_values(|e: (String, ControlDesc)| (e.0@, e.1))
    }

    /// A table of the writable integer, 64-bit integer, menu and boolean
    /// controls among `controls`, each under its control name.
    pub fn from_descriptions(controls: &[Description]) -> (r: ControlTable)
        ensures
            r.entries() == table_of(controls@),
    {
        let mut map: Vec<(String, ControlDesc)> = Vec::new();
        let mut i: usize = 0;
        assert(controls@.subrange(0, 0) =~= Seq::<Description>::empty());
        while i < controls.len()
            invariant
                i <= controls@.len(),
                map@.map_values(|e: (String, ControlDesc)| (e.0@, e.1)) == table_of(controls@.subrange(0, i as int)),
            decreases controls@.len() - i,
        {
            let c = &controls[i];
            assert(controls@.subrange(0, i + 1).drop_last() == controls@.subrange(0, i as int));
            assert(controls@.subrange(0, i + 1).last() == c);
            if c.flags & FLAG_READ_ONLY != FLAG_READ_ONLY {
                let value = match c.typ {
                    ControlType::Integer | ControlType::Integer64 | ControlType::Menu => Some(
                        ControlValue::Integer(c.default),
                    ),
                    ControlType::Boolean => Some(ControlValue::Boolean(c.default != 0)),
                    _ => None,
                };
                if let Some(value) = value {
                    let key = c.name.to_ctrl_name();
                    map.push(
                        (key, ControlDesc { id: c.id, value, minimum: c.minimum, maximum: c.maximum }),
                    );
                    assert(map@.map_values(|e: (String, ControlDesc)| (e.0@, e.1)) =~= table_of(
                        controls@.subrange(0, i + 1),
                    ));
                }
            }
            i = i + 1;
        }
        assert(controls@.subrange(0, controls@.len() as int) == controls@);
        ControlTable { map }
    }

    /// The control entered last under `name`, if any.
    fn find(&self, name: &String) -> (r: Option<&ControlDesc>)
        ensures
            r is Some <==> lookup(self.entries(), name@) is Some,
            r matches Some(d) ==> lookup(self.entries(), name@) == Some(*d),
    {
        let mut i: usize = self.map.len();
        assert(self.entries().subrange(0, i as int) == self.entries());
        while i > 0
            invariant
                i <= self.map@.len(),
                lookup(self.entries(), name@) == lookup(self.entries().subrange(0, i as int), name@),
            decreases i,
        {
            let ghost es = self.entries().subrange(0, i as int);
            assert(es.drop_last() == self.entries().subrange(0, i - 1));
            assert(es.last() == (self.map@[i - 1].0@, self.map@[i - 1].1));
            if self.map[i - 1].0 == *name {
                return Some(&self.map[i - 1].1);
            }
            i = i - 1;
        }
        None
    }

    /// The requests that cannot be applied, each with the reason.
    pub fn check(&self, reqs: &Requests) -> (r: Vec<UnsupportedControlDeatil>)
        ensures
            r@.map_values(|u: UnsupportedControlDeatil| (u.name@, u.detail@)) == issues(
                self.entries(),
                reqs.requests@,
            ),
    {
        let rs = &reqs.requests;
        let mut v: Vec<UnsupportedControlDeatil> = Vec::new();
        let mut i: usize = 0;
        assert(rs@.subrange(0, 0) =~= Seq::<Request>::empty());
        while i < rs.len()
            invariant
                i <= rs@.len(),
                v@.map_values(|u: UnsupportedControlDeatil| (u.name@, u.detail@)) == issues(
                    self.entries(),
                    rs@.subrange(0, i as int),
                ),
            decreases rs@.len() - i,
        {
            let r = &rs[i];
            assert(rs@.subrange(0, i + 1).drop_last() == rs@.subrange(0, i as int));
            assert(rs@.subrange(0, i + 1).last() == r);
            let found = self.find(&r.name);
            match found {
                None => {
                    proof { reveal_strlit("Control not found"); }
                    v.push(
                        UnsupportedControlDeatil {
                            name: r.name.clone(),
                            detail: String::from_str("Control not found"),
                        },
                    );
                },
                Some(desc) => {
                    if let Some(detail) = desc.check(r.name.as_str(), &r.value) {
                        v.push(detail);
                    }
                },
            }
            assert(v@.map_values(|u: UnsupportedControlDeatil| (u.name@, u.detail@)) =~= issues(
                self.entries(),
                rs@.subrange(0, i + 1),
            ));
            i = i + 1;
        }
        assert(rs@.subrange(0, rs@.len() as int) == rs@);
        v
    }

    /// The default setting of each requested control the table knows.
    pub fn get_default(&self, reqs: &Requests) -> (r: Vec<Control>)
        ensures
            r@ == defaults(self.entries(), reqs.requests@),
    {
        let rs = &reqs.requests;
        let mut v: Vec<Control> = Vec::new();
        let mut i: usize = 0;
        assert(rs@.subrange(0, 0) =~= Seq::<Request>::empty());
        while i < rs.len()
            invariant
                i <= rs@.len(),
                v@ == defaults(self.entries(), rs@.subrange(0, i as int)),
            decreases rs@.len() - i,
        {
            let r = &rs[i];
            assert(rs@.subrange(0, i + 1).drop_last() == rs@.subrange(0, i as int));
            assert(rs@.subrange(0, i + 1).last() == r);
            if let Some(x) = self.find(&r.name) {
                v.push(Control { id: x.id, value: x.value.duplicate() });
            }
            i = i + 1;
        }
        assert(rs@.subrange(0, rs@.len() as int) == rs@);
        v
    }

    /// The requested setting of each requested control the table knows.
    pub fn get_control(&self, reqs: &Requests) -> (r: Vec<Control>)
        ensures
            r@ == settings(self.entries(), reqs.requests@),
    {
        let rs = &reqs.requests;
        let mut v: Vec<Control> = Vec::new();
        let mut i: usize = 0;
        assert(rs@.subrange(0, 0) =~= Seq::<Request>::empty());
        while i < rs.len()
            invariant
                i <= rs@.len(),
                v@ == settings(self.entries(), rs@.subrange(0, i as int)),
            decreases rs@.len() - i,
        {
            let r = &rs[i];
            assert(rs@.subrange(0, i + 1).drop_last() == rs@.subrange(0, i as int));
            assert(rs@.subrange(0, i + 1).last() == r);
            if let Some(x) = self.find(&r.name) {
                v.push(Control { id: x.id, value: ControlValue::from_value(r.value.duplicate()) });
            }
            i = i + 1;
        }
        assert(rs@.subrange(0, rs@.len() as int) == rs@);
        v
    }
}

} // verus!
