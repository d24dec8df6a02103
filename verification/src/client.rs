use crate::error::{Error, ErrorKind};
use vstd::prelude::*;

verus! {

/// A lowercase hexadecimal digit.
pub open spec fn hex_lower(c: char) -> bool {
    ('0' as u32 <= c as u32 && c as u32 <= '9' as u32) || ('a' as u32 <= c as u32 && c as u32
        <= 'f' as u32)
}

/// A hexadecimal digit of either case.
pub open spec fn hex_any(c: char) -> bool {
    hex_lower(c) || ('A' as u32 <= c as u32 && c as u32 <= 'F' as u32)
}

/// The positions at which the canonical identifier form carries a hyphen.
pub open spec fn hyphen_position(k: int) -> bool {
    k == 8 || k == 13 || k == 18 || k == 23
}

/// Position `k` of `s` is what the canonical identifier form asks for there:
/// a hyphen at the four separator positions, a lowercase hexadecimal digit
/// everywhere else.
pub open spec fn uuid_char_at(s: Seq<char>, k: int) -> bool {
    if hyphen_position(k) {
        s[k] == '-'
    } else {
        hex_lower(s[k])
    }
}

/// Canonical identifier text: lowercase hexadecimal groups of
/// 8-4-4-4-12 digits separated by hyphens.
pub open spec fn uuid_text(s: Seq<char>) -> bool {
    s.len() == 36 && forall|k: int| 0 <= k < 36 ==> #[trigger] uuid_char_at(s, k)
}

/// Like position `k` of the canonical form, with either hexadecimal case.
pub open spec fn uuid_token_char_at(s: Seq<char>, k: int) -> bool {
    if hyphen_position(k) {
        s[k] == '-'
    } else {
        hex_any(s[k])
    }
}

/// Hyphenated identifier text of either hexadecimal case, as accepted when
/// reading identifier lists back from the external tool.
pub open spec fn uuid_token(s: Seq<char>) -> bool {
    s.len() == 36 && forall|k: int| 0 <= k < 36 ==> #[trigger] uuid_token_char_at(s, k)
}

/// Canonical identifier text starts at position `i` of `s`.
pub open spec fn uuid_at(s: Seq<char>, i: int) -> bool {
    0 <= i && i + 36 <= s.len() && uuid_text(s.subrange(i, i + 36))
}

/// Relies on regex::Regex::find: returns the first (leftmost) match of the
/// canonical identifier pattern, so no match starts at any earlier position.
#[verifier::external_body]
fn find_uuid_match<'a>(s: &'a str) -> (r: Option<&'a str>)
    ensures
        match r {
            Option::Some(t) => exists|i: int|
                #![all_triggers]
                uuid_at(s@, i) && t@ == s@.subrange(i, i + 36) && (forall|j: int|
                    0 <= j < i ==> !uuid_at(s@, j)),
            Option::None => forall|j: int| !(#[trigger] uuid_at(s@, j)),
        },
{
    let pattern = "[0-9a-f]{8}-[0-9a-f]{4}-[0-9a-f]{4}-[0-9a-f]{4}-[0-9a-f]{12}";
    let re = regex::Regex::new(pattern).unwrap();
    re.find(s).map(|m| m.as_str())
}

/// Pulls the newly assigned identifier out of the external tool's creation
/// feedback: the first canonical-form identifier occurring in the text.
/// Fails with a not-found error when the text holds none.
pub fn extract_uuid(feedback: &str) -> (r: Result<String, Error>)
    ensures
        match r {
            Result::Ok(u) => exists|i: int|
                #![all_triggers]
                uuid_at(feedback@, i) && u@ == feedback@.subrange(i, i + 36) && (forall|j: int|
                    0 <= j < i ==> !uuid_at(feedback@, j)),
            Result::Err(e) => e.kind == ErrorKind::NotFoundError && (forall|j: int|
                !(#[trigger] uuid_at(feedback@, j))),
        },
{
    match find_uuid_match(feedback) {
        Option::Some(t) => Result::Ok(t.to_owned()),
        Option::None => Result::Err(
            Error::not_found(String::from_str("No uuid in task feedback found")),
        ),
    }
}

/// Does `s` hold hyphenated identifier text of either hexadecimal case?
pub fn is_uuid_token(s: &str) -> (r: bool)
    ensures
        r == uuid_token(s@),
{
    let len = s.unicode_len();
    if len != 36 {
        return false;
    }
    let mut k: usize = 0;
    while k < 36
        invariant
            0 <= k <= 36,
            s@.len() == 36,
            forall|j: int| 0 <= j < k ==> #[trigger] uuid_token_char_at(s@, j),
        decreases 36 - k,
    {
        let c = s.get_char(k);
        let ok = if k == 8 || k == 13 || k == 18 || k == 23 {
            c == '-'
        } else {
            let n = c as u32;
            (48 <= n && n <= 57) || (97 <= n && n <= 102) || (65 <= n && n <= 70)
        };
        if !ok {
            proof {
                assert(!uuid_token_char_at(s@, k as int));
            }
            return false;
        }
        proof {
            assert(uuid_token_char_at(s@, k as int));
        }
        k = k + 1;
    }
    true
}

/// The position at which the token starting at `i` ends: the first position
/// at or after `i` that is past the end or holds whitespace.
pub open spec fn token_end(s: Seq<char>, i: int) -> int
    decreases s.len() - i,
{
    if i < 0 || i >= s.len() || crate::text::whitespace_char(s[i]) {
        i
    } else {
        token_end(s, i + 1)
    }
}

pub proof fn lemma_token_end_bounds(s: Seq<char>, i: int)
    requires
        0 <= i <= s.len(),
    ensures
        i <= token_end(s, i) <= s.len(),
        i < s.len() && !crate::text::whitespace_char(s[i]) ==> i + 1 <= token_end(s, i),
    decreases s.len() - i,
{
    if i < s.len() && !crate::text::whitespace_char(s[i]) {
        lemma_token_end_bounds(s, i + 1);
    }
}

/// The whitespace-separated tokens of `s` from position `i` on.
pub open spec fn tokens_from(s: Seq<char>, i: int) -> Seq<Seq<char>>
    decreases s.len() - i,
    via tokens_from_decreases
{
    if i < 0 || i >= s.len() {
        seq![]
    } else if crate::text::whitespace_char(s[i]) {
        tokens_from(s, i + 1)
    } else {
        seq![s.subrange(i, token_end(s, i))] + tokens_from(s, token_end(s, i))
    }
}

#[via_fn]
proof fn tokens_from_decreases(s: Seq<char>, i: int) {
    if 0 <= i < s.len() && !crate::text::whitespace_char(s[i]) {
        lemma_token_end_bounds(s, i);
    }
}

/// The whitespace-separated tokens of `s`.
pub open spec fn split_tokens(s: Seq<char>) -> Seq<Seq<char>> {
    tokens_from(s, 0)
}

/// The position right after the token that starts at `start`.
fn scan_token_end(s: &str, start: usize) -> (end: usize)
    requires
        start as int <= s@.len(),
    ensures
        end as int == token_end(s@, start as int),
        start <= end <= s@.len(),
{
    let len = s.unicode_len();
    let mut k = start;
    loop
        invariant
            start <= k <= len,
            len == s@.len(),
            token_end(s@, start as int) == token_end(s@, k as int),
        decreases len - k,
    {
        if k >= len {
            return k;
        }
        if crate::text::is_whitespace_char(s.get_char(k)) {
            return k;
        }
        proof {
            assert(token_end(s@, k as int) == token_end(s@, k as int + 1));
        }
        k = k + 1;
    }
}

/// Interprets the output of the identifier-listing invocation: the
/// whitespace-separated identifier tokens, in order.  An empty or all-blank
/// output yields the empty list, not an error; a token that is no
/// hyphenated identifier yields a decoding error.
pub fn parse_uuid_list(output: &str) -> (r: Result<Vec<String>, Error>)
    ensures
        match r {
            Result::Ok(v) => crate::text::texts(v@) == split_tokens(output@) && (forall|
                j: int,
            |
                0 <= j < split_tokens(output@).len() ==> uuid_token(
                    #[trigger] split_tokens(output@)[j],
                )),
            Result::Err(e) => e.kind == ErrorKind::DecodeError && (exists|j: int|
                0 <= j < split_tokens(output@).len() && !uuid_token(
                    #[trigger] split_tokens(output@)[j],
                )),
        },
{
    let len = output.unicode_len();
    let mut out: Vec<String> = Vec::new();
    let mut i: usize = 0;
    while i < len
        invariant
            0 <= i <= len,
            len == output@.len(),
            split_tokens(output@) == crate::text::texts(out@) + tokens_from(
                output@,
                i as int,
            ),
            forall|j: int| 0 <= j < out@.len() ==> uuid_token((#[trigger] out@[j])@),
        decreases len - i,
    {
        let c = output.get_char(i);
        if crate::text::is_whitespace_char(c) {
            proof {
                assert(tokens_from(output@, i as int) == tokens_from(output@, i as int + 1));
            }
            i = i + 1;
        } else {
            let k = scan_token_end(output, i);
            proof {
                lemma_token_end_bounds(output@, i as int);
            }
            let tok = output.substring_char(i, k);
            let ghost done = crate::text::texts(out@);
            proof {
                assert(tokens_from(output@, i as int) == seq![output@.subrange(i as int, k as int)]
                    + tokens_from(output@, k as int));
                assert(split_tokens(output@)[done.len() as int] == tok@);
            }
            if !is_uuid_token(tok) {
                return Result::Err(
                    Error::decode(String::from_str("Identifier list holds a malformed token")),
                );
            }
            out.push(String::from_str(tok));
            proof {
                assert(crate::text::texts(out@) =~= done.push(tok@));
                assert(split_tokens(output@) =~= crate::text::texts(out@) + tokens_from(
                    output@,
                    k as int,
                ));
            }
            i = k;
        }
    }
    proof {
        assert(split_tokens(output@) =~= crate::text::texts(out@));
        assert(forall|j: int|
            0 <= j < split_tokens(output@).len() ==> uuid_token(
                #[trigger] split_tokens(output@)[j],
            ));
    }
    Result::Ok(out)
}

/// Picks the record a single-task export must hold: the first one.  An
/// export that holds none fails with a not-found error, as a filtered
/// export only comes back empty when the identifier names no task.
pub fn first_task(records: Vec<crate::task::Task>) -> (r: Result<crate::task::Task, Error>)
    ensures
        records@.len() == 0 ==> r is Err && r->Err_0.kind == ErrorKind::NotFoundError,
        records@.len() > 0 ==> r is Ok && r->Ok_0 == records@[0],
{
    let mut records = records;
    if records.len() == 0 {
        Result::Err(Error::not_found(String::from_str("Could not load Task!")))
    } else {
        Result::Ok(records.remove(0))
    }
}

/// One invocation of the external tool: the arguments handed to its command
/// line, and, for the mutation commands, the log line to print before
/// running it.
pub struct Invocation {
    pub args: Vec<String>,
    pub log: Option<String>,
}

/// The argument texts of an invocation, in order.
pub open spec fn arg_texts(inv: Invocation) -> Seq<Seq<char>> {
    inv.args@.map_values(|a: String| a@)
}

/// The text of an optional argument; an absent value is encoded as empty
/// text, which clears the field on the external tool's side.
pub open spec fn opt_arg(o: Option<&str>) -> Seq<char> {
    match o {
        Option::None => Seq::empty(),
        Option::Some(p) => p@,
    }
}

/// `a` followed by `b` in one fresh string.
fn cat2(a: &str, b: &str) -> (r: String)
    ensures
        r@ == a@ + b@,
{
    let mut s = String::from_str(a);
    s.append(b);
    s
}

/// `a`, `b`, then `c` in one fresh string.
fn cat3(a: &str, b: &str, c: &str) -> (r: String)
    ensures
        r@ == a@ + b@ + c@,
{
    let mut s = String::from_str(a);
    s.append(b);
    s.append(c);
    s
}

/// `prefix` followed by the optional value, absent encoded as empty text.
fn cat_opt(prefix: &str, o: Option<&str>) -> (r: String)
    ensures
        r@ == prefix@ + opt_arg(o),
{
    let r = match o {
        Option::None => String::from_str(prefix),
        Option::Some(p) => cat2(prefix, p),
    };
    proof {
        if o is None {
            assert(prefix@ + opt_arg(o) =~= prefix@);
        }
    }
    r
}

/// The creation command: `add rc.verbose=new-uuid <description>
/// [partof:<parent>]`.  Its verbose feedback holds the new identifier;
/// `extract_uuid` reads it back out.
pub fn create(description: &str, partof: Option<&str>) -> (inv: Invocation)
    ensures
        partof is None ==> arg_texts(inv) == seq!["add"@, "rc.verbose=new-uuid"@, description@],
        partof matches Some(p) ==> arg_texts(inv) == seq![
            "add"@,
            "rc.verbose=new-uuid"@,
            description@,
            "partof:"@ + p@,
        ],
        inv.log is None,
{
    let mut args: Vec<String> = Vec::new();
    args.push(String::from_str("add"));
    args.push(String::from_str("rc.verbose=new-uuid"));
    args.push(String::from_str(description));
    if let Option::Some(p) = partof {
        args.push(cat2("partof:", p));
    }
    let inv = Invocation { args, log: Option::None };
    proof {
        if partof is None {
            assert(arg_texts(inv) =~= seq!["add"@, "rc.verbose=new-uuid"@, description@]);
        } else {
            assert(arg_texts(inv) =~= seq![
                "add"@,
                "rc.verbose=new-uuid"@,
                description@,
                "partof:"@ + partof->0@,
            ]);
        }
    }
    inv
}

/// The bulk export command, whose output lists every task.
pub fn export_all() -> (inv: Invocation)
    ensures
        arg_texts(inv) == seq!["export"@],
        inv.log is None,
{
    let mut args: Vec<String> = Vec::new();
    args.push(String::from_str("export"));
    let inv = Invocation { args, log: Option::None };
    proof {
        assert(arg_texts(inv) =~= seq!["export"@]);
    }
    inv
}

/// The export command filtered to one identifier.
pub fn export_one(uuid: &str) -> (inv: Invocation)
    ensures
        arg_texts(inv) == seq!["export"@, "uuid:"@ + uuid@],
        inv.log is None,
{
    let mut args: Vec<String> = Vec::new();
    args.push(String::from_str("export"));
    args.push(cat2("uuid:", uuid));
    let inv = Invocation { args, log: Option::None };
    proof {
        assert(arg_texts(inv) =~= seq!["export"@, "uuid:"@ + uuid@]);
    }
    inv
}

/// The raw identifier-listing command for a free-form filter expression;
/// `parse_uuid_list` interprets its output.
pub fn get_tasks(query: &str) -> (inv: Invocation)
    ensures
        arg_texts(inv) == seq!["_uuid"@, query@],
        inv.log is None,
{
    let mut args: Vec<String> = Vec::new();
    args.push(String::from_str("_uuid"));
    args.push(String::from_str(query));
    let inv = Invocation { args, log: Option::None };
    proof {
        assert(arg_texts(inv) =~= seq!["_uuid"@, query@]);
    }
    inv
}

/// The modify command that sets or clears one task's project field.
pub fn project(uuid: &str, name: Option<&str>) -> (inv: Invocation)
    ensures
        arg_texts(inv) == seq!["uuid:"@ + uuid@, "mod"@, "project:"@ + opt_arg(name)],
        inv.log matches Some(l) && l@ == "Setting "@ + uuid@ + ": project:"@ + opt_arg(name),
{
    let mut args: Vec<String> = Vec::new();
    args.push(cat2("uuid:", uuid));
    args.push(String::from_str("mod"));
    args.push(cat_opt("project:", name));
    let mut log = cat3("Setting ", uuid, ": project:");
    if let Option::Some(p) = name {
        log.append(p);
    }
    let inv = Invocation { args, log: Option::Some(log) };
    proof {
        assert(arg_texts(inv) =~= seq!["uuid:"@ + uuid@, "mod"@, "project:"@ + opt_arg(name)]);
        assert(inv.log->0@ =~= "Setting "@ + uuid@ + ": project:"@ + opt_arg(name));
    }
    inv
}

/// The command that marks one task done.
pub fn done(uuid: &str) -> (inv: Invocation)
    ensures
        arg_texts(inv) == seq!["uuid:"@ + uuid@, "done"@],
        inv.log matches Some(l) && l@ == "Setting "@ + uuid@ + ": done"@,
{
    let mut args: Vec<String> = Vec::new();
    args.push(cat2("uuid:", uuid));
    args.push(String::from_str("done"));
    let inv = Invocation { args, log: Option::Some(cat2("Setting ", uuid).concat(": done")) };
    proof {
        assert(arg_texts(inv) =~= seq!["uuid:"@ + uuid@, "done"@]);
    }
    inv
}

/// The command that deletes one task, with confirmation switched off.
pub fn delete(uuid: &str) -> (inv: Invocation)
    ensures
        arg_texts(inv) == seq!["uuid:"@ + uuid@, "delete"@, "rc.confirmation:0"@],
        inv.log matches Some(l) && l@ == "Setting "@ + uuid@ + ": deleted"@,
{
    let mut args: Vec<String> = Vec::new();
    args.push(cat2("uuid:", uuid));
    args.push(String::from_str("delete"));
    args.push(String::from_str("rc.confirmation:0"));
    let inv = Invocation { args, log: Option::Some(cat2("Setting ", uuid).concat(": deleted")) };
    proof {
        assert(arg_texts(inv) =~= seq!["uuid:"@ + uuid@, "delete"@, "rc.confirmation:0"@]);
    }
    inv
}

/// The modify command that sets one task's status back to pending.
pub fn pending(uuid: &str) -> (inv: Invocation)
    ensures
        arg_texts(inv) == seq!["uuid:"@ + uuid@, "mod"@, "status:pending"@],
        inv.log matches Some(l) && l@ == "Setting "@ + uuid@ + ": pending"@,
{
    let mut args: Vec<String> = Vec::new();
    args.push(cat2("uuid:", uuid));
    args.push(String::from_str("mod"));
    args.push(String::from_str("status:pending"));
    let inv = Invocation { args, log: Option::Some(cat2("Setting ", uuid).concat(": pending")) };
    proof {
        assert(arg_texts(inv) =~= seq!["uuid:"@ + uuid@, "mod"@, "status:pending"@]);
    }
    inv
}

/// The modify command that sets or clears one task's hierarchy link.
pub fn partof(uuid: &str, parent: Option<&str>) -> (inv: Invocation)
    ensures
        arg_texts(inv) == seq!["uuid:"@ + uuid@, "mod"@, "partof:"@ + opt_arg(parent)],
        inv.log matches Some(l) && l@ == "Setting "@ + uuid@ + ": partof:"@ + opt_arg(parent),
{
    let mut args: Vec<String> = Vec::new();
    args.push(cat2("uuid:", uuid));
    args.push(String::from_str("mod"));
    args.push(cat_opt("partof:", parent));
    let mut log = cat3("Setting ", uuid, ": partof:");
    if let Option::Some(p) = parent {
        log.append(p);
    }
    let inv = Invocation { args, log: Option::Some(log) };
    proof {
        assert(arg_texts(inv) =~= seq!["uuid:"@ + uuid@, "mod"@, "partof:"@ + opt_arg(parent)]);
        assert(inv.log->0@ =~= "Setting "@ + uuid@ + ": partof:"@ + opt_arg(parent));
    }
    inv
}

/// The modify command that replaces one task's description, quoted as the
/// external tool expects it.
pub fn set_description(uuid: &str, description: &str) -> (inv: Invocation)
    ensures
        arg_texts(inv) == seq![
            "uuid:"@ + uuid@,
            "mod"@,
            "description:\""@ + description@ + "\""@,
        ],
        inv.log matches Some(l) && l@ == "Setting "@ + uuid@ + ": description:\""@ + description@
            + "\""@,
{
    let mut args: Vec<String> = Vec::new();
    args.push(cat2("uuid:", uuid));
    args.push(String::from_str("mod"));
    args.push(cat3("description:\"", description, "\""));
    let mut log = cat3("Setting ", uuid, ": description:\"");
    log.append(description);
    log.append("\"");
    let inv = Invocation { args, log: Option::Some(log) };
    proof {
        assert(arg_texts(inv) =~= seq![
            "uuid:"@ + uuid@,
            "mod"@,
            "description:\""@ + description@ + "\""@,
        ]);
    }
    inv
}

/// The modify command that adds one tag to a task.
pub fn add_tag(uuid: &str, tag: &str) -> (inv: Invocation)
    ensures
        arg_texts(inv) == seq!["uuid:"@ + uuid@, "mod"@, "+"@ + tag@],
        inv.log matches Some(l) && l@ == "Setting "@ + uuid@ + ": +"@ + tag@,
{
    let mut args: Vec<String> = Vec::new();
    args.push(cat2("uuid:", uuid));
    args.push(String::from_str("mod"));
    args.push(cat2("+", tag));
    let mut log = cat3("Setting ", uuid, ": +");
    log.append(tag);
    let inv = Invocation { args, log: Option::Some(log) };
    proof {
        assert(arg_texts(inv) =~= seq!["uuid:"@ + uuid@, "mod"@, "+"@ + tag@]);
    }
    inv
}

/// The modify command that removes one tag from a task.
pub fn remove_tag(uuid: &str, tag: &str) -> (inv: Invocation)
    ensures
        arg_texts(inv) == seq!["uuid:"@ + uuid@, "mod"@, "-"@ + tag@],
        inv.log matches Some(l) && l@ == "Setting "@ + uuid@ + ": -"@ + tag@,
{
    let mut args: Vec<String> = Vec::new();
    args.push(cat2("uuid:", uuid));
    args.push(String::from_str("mod"));
    args.push(cat2("-", tag));
    let mut log = cat3("Setting ", uuid, ": -");
    log.append(tag);
    let inv = Invocation { args, log: Option::Some(log) };
    proof {
        assert(arg_texts(inv) =~= seq!["uuid:"@ + uuid@, "mod"@, "-"@ + tag@]);
    }
    inv
}

} // verus!
