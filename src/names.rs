use vstd::prelude::*;

use crate::text::{chars_of, digits_in, parse_digits};

verus! {

/// Whether `word` occurs in `s` at position `i`.
pub open spec fn occurs_at(s: Seq<char>, i: int, word: Seq<char>) -> bool {
    0 <= i && i + word.len() <= s.len() && s.subrange(i, i + word.len()) == word
}

/// Length of the unit suffix (`.service`, `.scope` or `.slice`) that starts
/// at `i` in `s`; 0 where none does.
pub open spec fn unit_suffix_at(s: Seq<char>, i: int) -> int {
    if occurs_at(s, i, ".service"@) {
        8
    } else if occurs_at(s, i, ".scope"@) {
        6
    } else if occurs_at(s, i, ".slice"@) {
        6
    } else {
        0
    }
}

/// The leftmost position from `i` on where a unit suffix starts, or `s.len()`.
pub open spec fn first_unit_suffix_from(s: Seq<char>, i: int) -> int
    decreases s.len() - i,
{
    if i >= s.len() {
        s.len() as int
    } else if unit_suffix_at(s, i) > 0 {
        i
    } else {
        first_unit_suffix_from(s, i + 1)
    }
}

/// `s` without its leftmost unit suffix.
pub open spec fn strip_unit_suffix(s: Seq<char>) -> Seq<char> {
    let p = first_unit_suffix_from(s, 0);
    if p < s.len() {
        s.take(p) + s.skip(p + unit_suffix_at(s, p))
    } else {
        s
    }
}

/// The display name of a cgroup of the system slice: its unit suffix
/// stripped, and a name of over 23 characters cut to 20 and marked `...`.
pub open spec fn system_display_name(raw: Seq<char>) -> Seq<char> {
    let n = strip_unit_suffix(raw);
    if n.len() <= 23 {
        n
    } else {
        n.take(20) + "..."@
    }
}

/// Whether `s` is `user-<digits>.slice`, with one digit or more.
pub open spec fn is_user_slice(s: Seq<char>) -> bool {
    &&& s.len() > 11
    &&& s.take(5) == "user-"@
    &&& s.skip(s.len() - 6) == ".slice"@
    &&& forall|i: int| 5 <= i < s.len() - 6 ==> '0' <= #[trigger] s[i] <= '9'
}

/// The digits of a `user-<digits>.slice` name.
pub open spec fn user_slice_digits(s: Seq<char>) -> Seq<char> {
    s.subrange(5, s.len() - 6)
}

/// The user id of a `user-<digits>.slice` name, where it fits in 32 bits.
pub open spec fn user_slice_uid(s: Seq<char>) -> Option<u64> {
    digits_in(s, 5, s.len() - 6, u32::MAX as nat)
}

fn occurs_at_exec(s: &Vec<char>, i: usize, word: &Vec<char>) -> (r: bool)
    requires
        i <= s.len(),
    ensures
        r == occurs_at(s@, i as int, word@),
{
    if word.len() > s.len() - i {
        return false;
    }
    let mut k: usize = 0;
    while k < word.len()
        invariant
            k <= word.len(),
            i + word.len() <= s.len(),
            forall|j: int| 0 <= j < k ==> s@[i + j] == word@[j],
        decreases word.len() - k,
    {
        if s[i + k] != word[k] {
            assert(s@.subrange(i as int, i + word.len())[k as int] != word@[k as int]);
            return false;
        }
        k = k + 1;
    }
    assert(s@.subrange(i as int, i + word.len()) =~= word@);
    true
}

/// Strips the leftmost unit suffix off the name of a system cgroup and
/// shortens it for display (see `system_display_name`).
pub fn system_name(raw: &str) -> (r: String)
    ensures
        r@ == system_display_name(raw@),
{
    proof {
        reveal_strlit(".service");
        reveal_strlit(".scope");
        reveal_strlit(".slice");
    }
    let c = chars_of(raw);
    let service = chars_of(".service");
    let scope = chars_of(".scope");
    let slice = chars_of(".slice");
    let mut p: usize = 0;
    let mut cut: usize = 0;
    while p < c.len()
        invariant
            p <= c.len(),
            c@ == raw@,
            service@ == ".service"@,
            scope@ == ".scope"@,
            slice@ == ".slice"@,
            first_unit_suffix_from(c@, 0) == first_unit_suffix_from(c@, p as int),
        ensures
            p <= c.len(),
            first_unit_suffix_from(c@, 0) == p,
            p < c.len() ==> cut as int == unit_suffix_at(c@, p as int),
            p < c.len() ==> p + cut <= c.len(),
        decreases c.len() - p,
    {
        proof {
            reveal_strlit(".service");
            reveal_strlit(".scope");
            reveal_strlit(".slice");
        }
        if occurs_at_exec(&c, p, &service) {
            cut = 8;
            break;
        } else if occurs_at_exec(&c, p, &scope) {
            cut = 6;
            break;
        } else if occurs_at_exec(&c, p, &slice) {
            cut = 6;
            break;
        }
        p = p + 1;
    }
    let ghost s = raw@;
    let mut name: String;
    if p < c.len() {
        let head = raw.substring_char(0, p);
        let tail = raw.substring_char(p + cut, c.len());
        name = String::from_str(head);
        name.append(tail);
        assert(s.take(p as int) =~= s.subrange(0, p as int));
        assert(s.skip(p + cut) =~= s.subrange(p + cut, s.len() as int));
    } else {
        name = String::from_str(raw);
    }
    assert(name@ == strip_unit_suffix(s));
    let len = name.as_str().unicode_len();
    if len <= 23 {
        name
    } else {
        let mut short = String::from_str(name.as_str().substring_char(0, 20));
        short.append("...");
        assert(name@.subrange(0, 20) =~= name@.take(20));
        short
    }
}

/// Finds the login name of a numeric user id, in the system's user
/// database or elsewhere; `None` where it has none.
pub trait UidResolver {
    fn name_of_uid(&self, uid: u32) -> Option<String>;
}

pub open spec fn result_view(r: Result<String, String>) -> Result<Seq<char>, Seq<char>> {
    match r {
        Ok(n) => Ok(n@),
        Err(e) => Err(e@),
    }
}

pub open spec fn opt_view(o: Option<String>) -> Option<Seq<char>> {
    match o {
        Some(n) => Some(n@),
        None => None,
    }
}

/// The outcome of naming the user of a cgroup key when the lookup of its
/// user id gives `found`: the name, or else what stands in for it (the key
/// itself where it is no `user-<digits>.slice`, its digits otherwise).
pub open spec fn user_name_result(key: Seq<char>, found: Option<Seq<char>>) -> Result<
    Seq<char>,
    Seq<char>,
> {
    if !is_user_slice(key) {
        Err(key)
    } else if user_slice_uid(key) is None {
        Err(user_slice_digits(key))
    } else {
        match found {
            Some(n) => Ok(n),
            None => Err(user_slice_digits(key)),
        }
    }
}

/// Whether `key` is `user-<digits>.slice`.
pub fn user_slice(key: &Vec<char>) -> (r: bool)
    ensures
        r == is_user_slice(key@),
{
    proof {
        reveal_strlit("user-");
        reveal_strlit(".slice");
    }
    if key.len() <= 11 {
        return false;
    }
    let prefix = chars_of("user-");
    let suffix = chars_of(".slice");
    if !occurs_at_exec(key, 0, &prefix) {
        assert(key@.take(5) =~= key@.subrange(0, 5));
        return false;
    }
    if !occurs_at_exec(key, key.len() - 6, &suffix) {
        assert(key@.skip(key.len() - 6) =~= key@.subrange(key.len() - 6, key.len() as int));
        return false;
    }
    assert(key@.take(5) =~= key@.subrange(0, 5));
    assert(key@.skip(key.len() - 6) =~= key@.subrange(key.len() - 6, key.len() as int));
    let mut i: usize = 5;
    while i < key.len() - 6
        invariant
            5 <= i <= key.len() - 6,
            key.len() > 11,
            forall|j: int| 5 <= j < i ==> '0' <= #[trigger] key@[j] <= '9',
        decreases key.len() - 6 - i,
    {
        if !('0' <= key[i] && key[i] <= '9') {
            return false;
        }
        i = i + 1;
    }
    true
}

/// The user id that a `user-<digits>.slice` key names, where it has one
/// that fits in 32 bits.
pub fn user_slice_uid_of(key: &str) -> (r: Option<u32>)
    ensures
        r matches Some(u) ==> is_user_slice(key@) && user_slice_uid(key@) == Some(u as u64),
        r is None ==> !is_user_slice(key@) || user_slice_uid(key@) is None,
{
    let c = chars_of(key);
    if !user_slice(&c) {
        return None;
    }
    match parse_digits(&c, 5, c.len() - 6, 0xffff_ffff) {
        Some(v) => Some(v as u32),
        None => None,
    }
}

/// The name for `key` when the lookup of its user id gave `found` (see
/// `user_name_result`).
pub fn user_name_from(key: &str, found: Option<String>) -> (r: Result<String, String>)
    ensures
        result_view(r) == user_name_result(key@, opt_view(found)),
{
    proof {
        reveal_strlit("user-");
        reveal_strlit(".slice");
    }
    let c = chars_of(key);
    if !user_slice(&c) {
        return Err(String::from_str(key));
    }
    let digits = String::from_str(key.substring_char(5, c.len() - 6));
    match parse_digits(&c, 5, c.len() - 6, 0xffff_ffff) {
        None => Err(digits),
        Some(_) => match found {
            Some(n) => Ok(n),
            None => Err(digits),
        },
    }
}

/// The login name of the user whose cgroup is `key` (`user-<uid>.slice`),
/// asking `resolver` for the name of the id; else, as an error, the key
/// itself where it has not that form, or its digits.
pub fn key2username<R: UidResolver>(key: &str, resolver: &R) -> (r: Result<String, String>)
    ensures
        exists|found: Option<Seq<char>>| result_view(r) == user_name_result(key@, found),
{
    let found = match user_slice_uid_of(key) {
        Some(uid) => resolver.name_of_uid(uid),
        None => None,
    };
    let ghost f = opt_view(found);
    let r = user_name_from(key, found);
    assert(result_view(r) == user_name_result(key@, f));
    r
}

/// The two ways in which the names of cgroups are made readable.
pub enum NamePolicy {
    /// Unit suffix stripped, long names cut (system slice).
    StripAndTruncate,
    /// User id replaced by the login name (user slice).
    UidToUsername,
}

/// A display name, and whether it is a stand-in for a user name that could
/// not be determined.
pub struct DisplayName {
    pub name: String,
    pub unresolved: bool,
}

impl DisplayName {
    /// The name is the outcome's name, or its stand-in marked unresolved.
    pub open spec fn stands_for(&self, outcome: Result<Seq<char>, Seq<char>>) -> bool {
        match outcome {
            Ok(n) => self.name@ == n && !self.unresolved,
            Err(e) => self.name@ == e && self.unresolved,
        }
    }
}

/// The display name under `policy` of the cgroup directory `raw`.
pub fn display_name<R: UidResolver>(policy: &NamePolicy, raw: &str, resolver: &R) -> (r: DisplayName)
    ensures
        *policy is StripAndTruncate ==> r.name@ == system_display_name(raw@) && !r.unresolved,
        *policy is UidToUsername ==> exists|found: Option<Seq<char>>|
            r.stands_for(#[trigger] user_name_result(raw@, found)),
{
    match policy {
        NamePolicy::StripAndTruncate => DisplayName { name: system_name(raw), unresolved: false },
        NamePolicy::UidToUsername => match key2username(raw, resolver) {
            Ok(n) => DisplayName { name: n, unresolved: false },
            Err(e) => DisplayName { name: e, unresolved: true },
        },
    }
}

/// Size of the first scratch buffer of a user database lookup.
pub const LOOKUP_BUFFER_LEN: usize = 2048;

/// What one attempt at a reentrant user database lookup reported.
pub enum LookupReply {
    /// The scratch buffer was too small.
    BufferTooSmall,
    /// No record, or the lookup failed.
    NoRecord,
    /// A record came back that is not the one the call was given to fill.
    ForeignRecord,
    /// The record's login name.
    Record(String),
}

/// What to do after an attempt.
pub enum LookupStep {
    /// Try again with a buffer of this size.
    Retry(usize),
    /// Stop, with the name where one was found.
    Finish(Option<String>),
}

/// Decides the next step of a lookup whose last attempt used a buffer of
/// `buffer_len` bytes: a buffer too small is doubled while its size fits in
/// `usize`; any other failure ends the lookup without a name.
pub fn next_lookup_step(buffer_len: usize, reply: LookupReply) -> (r: LookupStep)
    ensures
        reply is BufferTooSmall && buffer_len * 2 <= usize::MAX ==> r == LookupStep::Retry(
            (buffer_len * 2) as usize,
        ),
        reply is BufferTooSmall && buffer_len * 2 > usize::MAX ==> r matches LookupStep::Finish(
            None,
        ),
        reply is NoRecord || reply is ForeignRecord ==> r matches LookupStep::Finish(None),
        reply matches LookupReply::Record(n) ==> r matches LookupStep::Finish(Some(m)) && m == n,
{
    match reply {
        LookupReply::BufferTooSmall => match buffer_len.checked_mul(2) {
            Some(n) => LookupStep::Retry(n),
            None => LookupStep::Finish(None),
        },
        LookupReply::NoRecord => LookupStep::Finish(None),
        LookupReply::ForeignRecord => LookupStep::Finish(None),
        LookupReply::Record(n) => LookupStep::Finish(Some(n)),
    }
}

} // verus!
