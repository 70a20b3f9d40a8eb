use vstd::prelude::*;
use crate::side::Side;
use vstd::slice::slice_subrange;
use vstd::string::StringSliceAdditionalSpecFns;

verus! {

/// ASCII whitespace.
pub open spec fn is_ws(b: u8) -> bool {
    b == 32 || b == 9 || b == 10 || b == 11 || b == 12 || b == 13
}

/// ASCII lower case of a byte; other bytes are kept.
pub open spec fn lower(b: u8) -> u8 {
    if 65 <= b <= 90 {
        (b + 32) as u8
    } else {
        b
    }
}

/// Equality up to ASCII case.
pub open spec fn eq_ignore_case(a: Seq<u8>, b: Seq<u8>) -> bool {
    a.len() == b.len() && forall|i: int| 0 <= i < a.len() ==> lower(a[i]) == lower(b[i])
}

pub open spec fn starts_with(s: Seq<u8>, p: Seq<u8>) -> bool {
    p.len() <= s.len() && s.subrange(0, p.len() as int) == p
}

/// `s` with ASCII whitespace removed at both ends.
pub open spec fn trim(s: Seq<u8>) -> Seq<u8>
    decreases s.len(),
{
    if s.len() > 0 && is_ws(s[0]) {
        trim(s.drop_first())
    } else if s.len() > 0 && is_ws(s.last()) {
        trim(s.drop_last())
    } else {
        s
    }
}

/// `i` is the first space in `s`.
pub open spec fn first_space(s: Seq<u8>, i: int) -> bool {
    0 <= i < s.len() && s[i] == 32 && forall|k: int| 0 <= k < i ==> s[k] != 32
}

pub open spec fn has_space(s: Seq<u8>) -> bool {
    exists|k: int| 0 <= k < s.len() && s[k] == 32
}

pub open spec fn is_digit(b: u8) -> bool {
    48 <= b <= 57
}

/// Decimal value of a run of digits.
pub open spec fn digits_value(s: Seq<u8>) -> nat
    decreases s.len(),
{
    if s.len() == 0 {
        0
    } else {
        digits_value(s.drop_last()) * 10 + (s.last() - 48) as nat
    }
}

/// The digits of an unsigned decimal: the text without one leading `+`.
pub open spec fn unsigned_digits(s: Seq<u8>) -> Seq<u8> {
    if s.len() > 0 && s[0] == 43 {
        s.drop_first()
    } else {
        s
    }
}

/// The value of `s` read as an unsigned decimal no larger than `max`, as std reads integers.
pub open spec fn decimal_of(s: Seq<u8>, max: nat) -> Option<nat> {
    let d = unsigned_digits(s);
    if d.len() > 0 && (forall|i: int| 0 <= i < d.len() ==> is_digit(d[i])) && digits_value(d)
        <= max {
        Some(digits_value(d))
    } else {
        None
    }
}

pub open spec fn lit_blue() -> Seq<u8> {
    seq![98u8, 108, 117, 101]
}

pub open spec fn lit_red() -> Seq<u8> {
    seq![114u8, 101, 100]
}

pub open spec fn lit_neutrals() -> Seq<u8> {
    seq![110u8, 101, 117, 116, 114, 97, 108, 115]
}

/// `-switch `
pub open spec fn lit_switch() -> Seq<u8> {
    seq![45u8, 115, 119, 105, 116, 99, 104, 32]
}

/// `-lives`
pub open spec fn lit_lives() -> Seq<u8> {
    seq![45u8, 108, 105, 118, 101, 115]
}

/// `-admin `
pub open spec fn lit_admin() -> Seq<u8> {
    seq![45u8, 97, 100, 109, 105, 110, 32]
}

pub open spec fn lit_help() -> Seq<u8> {
    seq![104u8, 101, 108, 112]
}

/// `reduce-inventory `
pub open spec fn lit_reduce() -> Seq<u8> {
    seq![114u8, 101, 100, 117, 99, 101, 45, 105, 110, 118, 101, 110, 116, 111, 114, 121, 32]
}

/// `logistics-tick-now`
pub open spec fn lit_tick_now() -> Seq<u8> {
    seq![108u8, 111, 103, 105, 115, 116, 105, 99, 115, 45, 116, 105, 99, 107, 45, 110, 111, 119]
}

/// `logistics-deliver-now`
pub open spec fn lit_deliver_now() -> Seq<u8> {
    seq![
        108u8, 111, 103, 105, 115, 116, 105, 99, 115, 45, 100, 101, 108, 105, 118, 101, 114, 45,
        110, 111, 119,
    ]
}

/// `tim `
pub open spec fn lit_tim() -> Seq<u8> {
    seq![116u8, 105, 109, 32]
}

/// Blast radius of `tim` when none is given.
pub const DEFAULT_TIM_SIZE: usize = 3000;

/// A privileged command, queued and run on a later tick.
#[derive(Debug, Clone, PartialEq, Eq)]
pub enum AdminCommand {
    Help,
    /// Reduce the inventory of the named airbase by `amount`.
    ReduceInventory { airbase: Vec<u8>, amount: u8 },
    LogisticsTickNow,
    LogisticsDeliverNow,
    /// Detonate at every map marker labelled `key`, with radius `size`.
    Tim { key: Vec<u8>, size: usize },
}

/// Why an admin command was not understood.
#[derive(Debug, Clone, Copy, PartialEq, Eq, Structural)]
pub enum AdminParseError {
    /// The text does not start with `-admin `.
    NotAdmin,
    /// `reduce-inventory` without both an airbase and an amount.
    ReduceInventoryUsage,
    /// `tim` without a key.
    TimUsage,
    /// A number that is not an unsigned decimal of the field's range.
    BadNumber,
    Unknown,
}

/// The kind of an admin command, without its fields.
#[derive(Debug, Clone, Copy, PartialEq, Eq, Structural)]
pub enum AdminKind {
    Help,
    ReduceInventory,
    LogisticsTickNow,
    LogisticsDeliverNow,
    Tim,
}

/// An admin command as its kind, its text field and its number field (empty and zero where the
/// command has none).
pub open spec fn command_view(c: AdminCommand) -> (AdminKind, Seq<u8>, nat) {
    match c {
        AdminCommand::Help => (AdminKind::Help, Seq::empty(), 0),
        AdminCommand::ReduceInventory { airbase, amount } => (
            AdminKind::ReduceInventory,
            airbase@,
            amount as nat,
        ),
        AdminCommand::LogisticsTickNow => (AdminKind::LogisticsTickNow, Seq::empty(), 0),
        AdminCommand::LogisticsDeliverNow => (AdminKind::LogisticsDeliverNow, Seq::empty(), 0),
        AdminCommand::Tim { key, size } => (AdminKind::Tim, key@, size as nat),
    }
}

/// A key or an airbase and the number after it: `r` split at its first space.
pub open spec fn text_and_number(r: Seq<u8>, max: nat) -> Option<(Seq<u8>, nat)> {
    let i = choose|i: int| first_space(r, i);
    match decimal_of(r.subrange(i + 1, r.len() as int), max) {
        Some(n) => Some((r.subrange(0, i), n)),
        None => None,
    }
}

/// The admin command that `s`, the text after `-admin `, stands for.
pub open spec fn admin_body_spec(s: Seq<u8>) -> Result<(AdminKind, Seq<u8>, nat), AdminParseError> {
    if trim(s) == lit_help() {
        Ok((AdminKind::Help, Seq::empty(), 0))
    } else if starts_with(s, lit_reduce()) {
        let r = s.subrange(lit_reduce().len() as int, s.len() as int);
        if !has_space(r) || first_space(r, 0) {
            Err(AdminParseError::ReduceInventoryUsage)
        } else {
            match text_and_number(r, 255) {
                Some((a, n)) => Ok((AdminKind::ReduceInventory, a, n)),
                None => Err(AdminParseError::BadNumber),
            }
        }
    } else if trim(s) == lit_tick_now() {
        Ok((AdminKind::LogisticsTickNow, Seq::empty(), 0))
    } else if trim(s) == lit_deliver_now() {
        Ok((AdminKind::LogisticsDeliverNow, Seq::empty(), 0))
    } else if starts_with(s, lit_tim()) {
        let r = s.subrange(lit_tim().len() as int, s.len() as int);
        if r.len() == 0 || first_space(r, 0) {
            Err(AdminParseError::TimUsage)
        } else if !has_space(r) {
            Ok((AdminKind::Tim, r, DEFAULT_TIM_SIZE as nat))
        } else {
            match text_and_number(r, usize::MAX as nat) {
                Some((k, n)) => Ok((AdminKind::Tim, k, n)),
                None => Err(AdminParseError::BadNumber),
            }
        }
    } else {
        Err(AdminParseError::Unknown)
    }
}

/// The admin command that a whole chat line `s` stands for.
pub open spec fn admin_spec(s: Seq<u8>) -> Result<(AdminKind, Seq<u8>, nat), AdminParseError> {
    if starts_with(s, lit_admin()) {
        admin_body_spec(s.subrange(lit_admin().len() as int, s.len() as int))
    } else {
        Err(AdminParseError::NotAdmin)
    }
}

/// What a parse result says, in the terms of `admin_spec`.
pub open spec fn parsed_view(r: Result<AdminCommand, AdminParseError>) -> Result<
    (AdminKind, Seq<u8>, nat),
    AdminParseError,
> {
    match r {
        Ok(c) => Ok(command_view(c)),
        Err(e) => Err(e),
    }
}

/// What a chat line asks for.
#[derive(Debug, Clone, Copy, PartialEq, Eq, Structural)]
pub enum ChatCommand {
    /// Join a side: `blue` or `red`, in any case.
    Register(Side),
    /// Switch sides: `-switch blue` or `-switch red`, in any case.
    Switch(Side),
    /// Report lives: `-lives`, in any case.
    Lives,
    /// A line starting with `-admin `.
    Admin,
    /// Anything else is ordinary chat.
    Chat,
}

/// The command that the chat line `s` stands for.
pub open spec fn chat_spec(s: Seq<u8>) -> ChatCommand {
    if eq_ignore_case(s, lit_blue()) {
        ChatCommand::Register(Side::Blue)
    } else if eq_ignore_case(s, lit_red()) {
        ChatCommand::Register(Side::Red)
    } else if eq_ignore_case(s, lit_switch() + lit_blue()) {
        ChatCommand::Switch(Side::Blue)
    } else if eq_ignore_case(s, lit_switch() + lit_red()) {
        ChatCommand::Switch(Side::Red)
    } else if eq_ignore_case(s, lit_lives()) {
        ChatCommand::Lives
    } else if starts_with(s, lit_admin()) {
        ChatCommand::Admin
    } else {
        ChatCommand::Chat
    }
}

fn lower_byte(b: u8) -> (r: u8)
    ensures
        r == lower(b),
{
    if 65 <= b && b <= 90 {
        b + 32
    } else {
        b
    }
}

/// Whether `s` equals `p` up to ASCII case.
fn eq_ignore_case_exec(s: &[u8], p: &Vec<u8>) -> (r: bool)
    ensures
        r == eq_ignore_case(s@, p@),
{
    if s.len() != p.len() {
        return false;
    }
    let n = s.len();
    for i in 0..n
        invariant
            n == s@.len(),
            n == p@.len(),
            forall|k: int| 0 <= k < i ==> lower(s@[k]) == lower(p@[k]),
    {
        if lower_byte(s[i]) != lower_byte(p[i]) {
            return false;
        }
    }
    true
}

/// Whether `s` starts with `p`.
pub(crate) fn starts_with_exec(s: &[u8], p: &Vec<u8>) -> (r: bool)
    ensures
        r == starts_with(s@, p@),
{
    if p.len() > s.len() {
        return false;
    }
    let n = p.len();
    for i in 0..n
        invariant
            n == p@.len(),
            n <= s@.len(),
            forall|k: int| 0 <= k < i ==> s@[k] == p@[k],
    {
        if s[i] != p[i] {
            assert(s@.subrange(0, n as int)[i as int] != p@[i as int]);
            return false;
        }
    }
    assert(s@.subrange(0, n as int) =~= p@);
    true
}

fn is_ws_exec(b: u8) -> (r: bool)
    ensures
        r == is_ws(b),
{
    b == 32 || b == 9 || b == 10 || b == 11 || b == 12 || b == 13
}

/// The bounds of `s` with ASCII whitespace trimmed at both ends.
fn trim_bounds(s: &[u8]) -> (r: (usize, usize))
    ensures
        r.0 <= r.1 <= s@.len(),
        trim(s@) == s@.subrange(r.0 as int, r.1 as int),
{
    let n = s.len();
    let mut lo: usize = 0;
    assert(s@.subrange(0, n as int) =~= s@);
    while lo < n && is_ws_exec(s[lo])
        invariant
            lo <= n == s@.len(),
            trim(s@) == trim(s@.subrange(lo as int, n as int)),
        decreases n - lo,
    {
        assert(s@.subrange(lo as int, n as int).drop_first() =~= s@.subrange(lo + 1, n as int));
        lo = lo + 1;
    }
    let mut hi: usize = n;
    while hi > lo && is_ws_exec(s[hi - 1])
        invariant
            lo <= hi <= n == s@.len(),
            lo < hi ==> !is_ws(s@[lo as int]),
            trim(s@) == trim(s@.subrange(lo as int, hi as int)),
        decreases hi - lo,
    {
        let ghost t = s@.subrange(lo as int, hi as int);
        assert(t[0] == s@[lo as int]);
        assert(t.last() == s@[hi - 1]);
        assert(t.drop_last() =~= s@.subrange(lo as int, hi - 1));
        hi = hi - 1;
    }
    proof {
        let t = s@.subrange(lo as int, hi as int);
        if lo < hi {
            assert(t[0] == s@[lo as int]);
            assert(t.last() == s@[hi - 1]);
        }
    }
    (lo, hi)
}

/// The first space in `s`, if any.
fn find_space(s: &[u8]) -> (r: Option<usize>)
    ensures
        match r {
            Some(i) => first_space(s@, i as int),
            None => !has_space(s@),
        },
{
    let n = s.len();
    for i in 0..n
        invariant
            n == s@.len(),
            forall|k: int| 0 <= k < i ==> s@[k] != 32,
    {
        if s[i] == 32 {
            return Some(i);
        }
    }
    None
}

proof fn lemma_first_space_unique(s: Seq<u8>, i: int)
    requires
        first_space(s, i),
    ensures
        has_space(s),
        (choose|j: int| first_space(s, j)) == i,
{
    assert(s[i] == 32);
    let j = choose|j: int| first_space(s, j);
    assert(first_space(s, j));
    if j < i {
        assert(s[j] != 32);
    }
    if i < j {
        assert(s[i] != 32);
    }
}

proof fn lemma_digits_value_monotone(s: Seq<u8>, k: int)
    requires
        0 <= k <= s.len(),
        forall|i: int| 0 <= i < s.len() ==> is_digit(s[i]),
    ensures
        digits_value(s.subrange(0, k)) <= digits_value(s),
    decreases s.len() - k,
{
    if k < s.len() {
        lemma_digits_value_monotone(s, k + 1);
        assert(s.subrange(0, k + 1).drop_last() =~= s.subrange(0, k));
    } else {
        assert(s.subrange(0, k) =~= s);
    }
}

/// Reads `s` as an unsigned decimal no larger than `max`.
fn parse_decimal(s: &[u8], max: usize) -> (r: Option<usize>)
    ensures
        match decimal_of(s@, max as nat) {
            Some(n) => r == Some(n as usize),
            None => r is None,
        },
{
    let start: usize = if s.len() > 0 && s[0] == 43 {
        1
    } else {
        0
    };
    let d = slice_subrange(s, start, s.len());
    assert(d@ =~= unsigned_digits(s@));
    let n = d.len();
    if n == 0 {
        return None;
    }
    let mut acc: u128 = 0;
    for i in 0..n
        invariant
            n == d@.len(),
            d@ == unsigned_digits(s@),
            forall|k: int| 0 <= k < i ==> is_digit(d@[k]),
            acc == digits_value(d@.subrange(0, i as int)),
            acc <= max,
    {
        let b = d[i];
        assert(d@.subrange(0, i + 1).drop_last() =~= d@.subrange(0, i as int));
        assert(d@.subrange(0, i + 1).last() == b);
        if b < 48 || b > 57 {
            assert(!is_digit(unsigned_digits(s@)[i as int]));
            return None;
        }
        let next = acc * 10 + (b - 48) as u128;
        if next > max as u128 {
            proof {
                assert(next == digits_value(d@.subrange(0, i + 1)));
                if forall|k: int| 0 <= k < n ==> is_digit(d@[k]) {
                    lemma_digits_value_monotone(d@, i + 1);
                }
            }
            return None;
        }
        acc = next;
    }
    assert(d@.subrange(0, n as int) =~= d@);
    Some(acc as usize)
}

/// A copy of `s`.
fn to_vec(s: &[u8]) -> (r: Vec<u8>)
    ensures
        r@ == s@,
{
    let mut r: Vec<u8> = Vec::new();
    let n = s.len();
    for i in 0..n
        invariant
            n == s@.len(),
            r@ == s@.subrange(0, i as int),
    {
        r.push(s[i]);
        assert(r@ =~= s@.subrange(0, i + 1));
    }
    assert(s@.subrange(0, n as int) =~= s@);
    r
}

/// Splits `r` at its first space into a text and a number no larger than `max`.
fn split_text_number(r: &[u8], i: usize, max: usize) -> (out: Option<(Vec<u8>, usize)>)
    requires
        first_space(r@, i as int),
    ensures
        match text_and_number(r@, max as nat) {
            Some((t, n)) => match out {
                Some((v, m)) => v@ == t && m == n,
                None => false,
            },
            None => out is None,
        },
{
    proof {
        lemma_first_space_unique(r@, i as int);
    }
    let len = r.len();
    assert(i < len);
    let t = slice_subrange(r, 0, i);
    let num = slice_subrange(r, i + 1, len);
    match parse_decimal(num, max) {
        Some(n) => Some((to_vec(t), n)),
        None => None,
    }
}

/// Parses the text after `-admin `.
fn parse_admin_body(s: &[u8]) -> (r: Result<AdminCommand, AdminParseError>)
    ensures
        parsed_view(r) == admin_body_spec(s@),
{
    let (lo, hi) = trim_bounds(s);
    let help: Vec<u8> = vec![104u8, 101, 108, 112];
    let reduce: Vec<u8> = vec![114u8, 101, 100, 117, 99, 101, 45, 105, 110, 118, 101, 110, 116, 111, 114, 121, 32];
    let tick_now: Vec<u8> = vec![108u8, 111, 103, 105, 115, 116, 105, 99, 115, 45, 116, 105, 99, 107, 45, 110, 111, 119];
    let deliver_now: Vec<u8> = vec![
        108u8, 111, 103, 105, 115, 116, 105, 99, 115, 45, 100, 101, 108, 105, 118, 101, 114, 45,
        110, 111, 119,
    ];
    let tim: Vec<u8> = vec![116u8, 105, 109, 32];
    assert(help@ =~= lit_help());
    assert(reduce@ =~= lit_reduce());
    assert(tick_now@ =~= lit_tick_now());
    assert(deliver_now@ =~= lit_deliver_now());
    assert(tim@ =~= lit_tim());
    let trimmed = slice_subrange(s, lo, hi);
    proof {
        let t = trimmed@;
        if t.len() == 4 {
            assert(t.subrange(0, 4) =~= t);
        }
        if t.len() == 18 {
            assert(t.subrange(0, 18) =~= t);
        }
        if t.len() == 21 {
            assert(t.subrange(0, 21) =~= t);
        }
    }
    if starts_with_exec(trimmed, &help) && trimmed.len() == 4 {
        assert(trimmed@ =~= trimmed@.subrange(0, 4));
        Ok(AdminCommand::Help)
    } else if starts_with_exec(s, &reduce) {
        proof {
            if trim(s@) == lit_help() {
                assert(trimmed@.subrange(0, 4) =~= trimmed@);
            }
        }
        let r = slice_subrange(s, reduce.len(), s.len());
        match find_space(r) {
            None => Err(AdminParseError::ReduceInventoryUsage),
            Some(0) => Err(AdminParseError::ReduceInventoryUsage),
            Some(i) => match split_text_number(r, i, 255) {
                Some((airbase, n)) => Ok(AdminCommand::ReduceInventory { airbase, amount: n as u8 }),
                None => Err(AdminParseError::BadNumber),
            },
        }
    } else if trimmed.len() == tick_now.len() && starts_with_exec(trimmed, &tick_now) {
        proof {
            if trim(s@) == lit_help() {
                assert(trimmed@.subrange(0, 4) =~= trimmed@);
            }
        }
        Ok(AdminCommand::LogisticsTickNow)
    } else if trimmed.len() == deliver_now.len() && starts_with_exec(trimmed, &deliver_now) {
        proof {
            if trim(s@) == lit_help() {
                assert(trimmed@.subrange(0, 4) =~= trimmed@);
            }
        }
        Ok(AdminCommand::LogisticsDeliverNow)
    } else if starts_with_exec(s, &tim) {
        proof {
            if trim(s@) == lit_help() {
                assert(trimmed@.subrange(0, 4) =~= trimmed@);
            }
        }
        let r = slice_subrange(s, tim.len(), s.len());
        match find_space(r) {
            None if r.len() == 0 => Err(AdminParseError::TimUsage),
            None => Ok(AdminCommand::Tim { key: to_vec(r), size: DEFAULT_TIM_SIZE }),
            Some(0) => Err(AdminParseError::TimUsage),
            Some(i) => match split_text_number(r, i, usize::MAX) {
                Some((key, n)) => Ok(AdminCommand::Tim { key, size: n }),
                None => Err(AdminParseError::BadNumber),
            },
        }
    } else {
        proof {
            if trim(s@) == lit_help() {
                assert(trimmed@.subrange(0, 4) =~= trimmed@);
            }
        }
        Err(AdminParseError::Unknown)
    }
}

/// Parses an admin chat line, `-admin ` followed by the command.
pub fn parse_admin(msg: &str) -> (r: Result<AdminCommand, AdminParseError>)
    ensures
        parsed_view(r) == admin_spec(msg.spec_bytes()),
{
    let s = msg.as_bytes();
    let admin: Vec<u8> = vec![45u8, 97, 100, 109, 105, 110, 32];
    assert(admin@ =~= lit_admin());
    if starts_with_exec(s, &admin) {
        parse_admin_body(slice_subrange(s, admin.len(), s.len()))
    } else {
        Err(AdminParseError::NotAdmin)
    }
}

/// Classifies a chat line.
pub fn parse_chat(msg: &str) -> (r: ChatCommand)
    ensures
        r == chat_spec(msg.spec_bytes()),
{
    let s = msg.as_bytes();
    let blue: Vec<u8> = vec![98u8, 108, 117, 101];
    let red: Vec<u8> = vec![114u8, 101, 100];
    let switch_blue: Vec<u8> = vec![45u8, 115, 119, 105, 116, 99, 104, 32, 98, 108, 117, 101];
    let switch_red: Vec<u8> = vec![45u8, 115, 119, 105, 116, 99, 104, 32, 114, 101, 100];
    let lives: Vec<u8> = vec![45u8, 108, 105, 118, 101, 115];
    let admin: Vec<u8> = vec![45u8, 97, 100, 109, 105, 110, 32];
    assert(blue@ =~= lit_blue());
    assert(red@ =~= lit_red());
    assert(switch_blue@ =~= lit_switch() + lit_blue());
    assert(switch_red@ =~= lit_switch() + lit_red());
    assert(lives@ =~= lit_lives());
    assert(admin@ =~= lit_admin());
    if eq_ignore_case_exec(s, &blue) {
        ChatCommand::Register(Side::Blue)
    } else if eq_ignore_case_exec(s, &red) {
        ChatCommand::Register(Side::Red)
    } else if eq_ignore_case_exec(s, &switch_blue) {
        ChatCommand::Switch(Side::Blue)
    } else if eq_ignore_case_exec(s, &switch_red) {
        ChatCommand::Switch(Side::Red)
    } else if eq_ignore_case_exec(s, &lives) {
        ChatCommand::Lives
    } else if starts_with_exec(s, &admin) {
        ChatCommand::Admin
    } else {
        ChatCommand::Chat
    }
}

} // verus!
