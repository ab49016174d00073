//! The accounts of the sessions: which email address a session is logged in with, how a session
//! is found by it, and how the sessions are listed.
use vstd::prelude::*;

use crate::error::{Error, ErrorKind};
use crate::json::{json_document, parse_json, Json, Tree};
use crate::path::path_below;
use crate::state::{Store, StoreView};
use crate::text::{characters, code_point, decode_text, holds_char, join_texts, joined, slice_text};
use crate::text::texts;

verus! {

// ---------------------------------------------------------------------------
// Base64
// ---------------------------------------------------------------------------
/// The six bits that a character stands for in the URL-safe alphabet of Base64.
pub open spec fn sextet(c: char) -> Option<int> {
    if 'A' <= c <= 'Z' {
        Some(c as int - 'A' as int)
    } else if 'a' <= c <= 'z' {
        Some(c as int - 'a' as int + 26)
    } else if '0' <= c <= '9' {
        Some(c as int - '0' as int + 52)
    } else if c == '-' {
        Some(62)
    } else if c == '_' {
        Some(63)
    } else {
        None
    }
}

/// The character that stands for six bits.
pub open spec fn sextet_char(n: int) -> char {
    if n < 26 {
        ('A' as int + n) as char
    } else if n < 52 {
        ('a' as int + (n - 26)) as char
    } else if n < 62 {
        ('0' as int + (n - 52)) as char
    } else if n == 62 {
        '-'
    } else {
        '_'
    }
}

/// The bytes that a text without padding encodes: each four characters make three bytes, and
/// two or three characters at the end make one byte or two. The bits of the last character that
/// make no whole byte are left out.
pub open spec fn base64_bytes(s: Seq<char>) -> Option<Seq<u8>>
    decreases s.len(),
{
    if s.len() == 0 {
        Some(seq![])
    } else if s.len() == 1 || sextet(s[0]) is None || sextet(s[1]) is None {
        None
    } else {
        let first = (sextet(s[0])->0 * 4 + sextet(s[1])->0 / 16) as u8;
        if s.len() == 2 {
            Some(seq![first])
        } else if sextet(s[2]) is None {
            None
        } else {
            let second = (sextet(s[1])->0 % 16 * 16 + sextet(s[2])->0 / 4) as u8;
            if s.len() == 3 {
                Some(seq![first, second])
            } else if sextet(s[3]) is None {
                None
            } else {
                let third = (sextet(s[2])->0 % 4 * 64 + sextet(s[3])->0) as u8;
                match base64_bytes(s.skip(4)) {
                    Some(rest) => Some(seq![first, second, third] + rest),
                    None => None,
                }
            }
        }
    }
}

/// The text without padding that encodes `bytes`.
pub open spec fn base64_text(bytes: Seq<u8>) -> Seq<char>
    decreases bytes.len(),
{
    if bytes.len() == 0 {
        seq![]
    } else if bytes.len() == 1 {
        seq![sextet_char(bytes[0] as int / 4), sextet_char(bytes[0] as int % 4 * 16)]
    } else if bytes.len() == 2 {
        seq![
            sextet_char(bytes[0] as int / 4),
            sextet_char(bytes[0] as int % 4 * 16 + bytes[1] as int / 16),
            sextet_char(bytes[1] as int % 16 * 4),
        ]
    } else {
        seq![
            sextet_char(bytes[0] as int / 4),
            sextet_char(bytes[0] as int % 4 * 16 + bytes[1] as int / 16),
            sextet_char(bytes[1] as int % 16 * 4 + bytes[2] as int / 64),
            sextet_char(bytes[2] as int % 64),
        ] + base64_text(bytes.skip(3))
    }
}

/// Decoding gives back the bytes that were encoded.
pub proof fn base64_reads_back(bytes: Seq<u8>)
    ensures
        base64_bytes(base64_text(bytes)) == Some(bytes),
    decreases bytes.len(),
{
    let s = base64_text(bytes);
    if bytes.len() >= 3 {
        base64_reads_back(bytes.skip(3));
        assert(s.skip(4) =~= base64_text(bytes.skip(3)));
        assert(seq![bytes[0], bytes[1], bytes[2]] + bytes.skip(3) =~= bytes);
    } else if bytes.len() == 2 {
        assert(seq![bytes[0], bytes[1]] =~= bytes);
    } else if bytes.len() == 1 {
        assert(seq![bytes[0]] =~= bytes);
    }
}

fn read_sextet(c: char) -> (r: Option<u8>)
    ensures
        match r {
            Some(n) => sextet(c) == Some(n as int) && n < 64,
            None => sextet(c) is None,
        },
{
    let n: u32 = code_point(c);
    if 'A' <= c && c <= 'Z' {
        Some((n - 65) as u8)
    } else if 'a' <= c && c <= 'z' {
        Some((n - 97 + 26) as u8)
    } else if '0' <= c && c <= '9' {
        Some((n - 48 + 52) as u8)
    } else if c == '-' {
        Some(62)
    } else if c == '_' {
        Some(63)
    } else {
        None
    }
}

/// The bytes that `s` encodes, or `None` where it is no Base64.
pub fn decode_base64(s: &str) -> (r: Option<Vec<u8>>)
    ensures
        match r {
            Some(bytes) => base64_bytes(s@) == Some(bytes@),
            None => base64_bytes(s@) is None,
        },
{
    let x = characters(s);
    let mut bytes: Vec<u8> = Vec::new();
    let mut i: usize = 0;
    proof {
        assert(s@.skip(0) =~= s@);
    }
    while i < x.len()
        invariant
            i <= x@.len(),
            x@ == s@,
            match base64_bytes(s@.skip(i as int)) {
                Some(rest) => base64_bytes(s@) == Some(bytes@ + rest),
                None => base64_bytes(s@) is None,
            },
        decreases x@.len() - i,
    {
        let ghost left = s@.skip(i as int);
        proof {
            if left.len() >= 4 {
                assert(left.skip(4) =~= s@.skip(i + 4));
            }
        }
        if x.len() - i == 1 {
            return None;
        }
        let (a, b) = match (read_sextet(x[i]), read_sextet(x[i + 1])) {
            (Some(a), Some(b)) => (a, b),
            _ => {
                return None;
            },
        };
        let ghost before = bytes@;
        bytes.push(a * 4 + b / 16);
        if x.len() - i == 2 {
            proof {
                assert(bytes@ =~= before + seq![(a * 4 + b / 16) as u8]);
            }
            return Some(bytes);
        }
        let c = match read_sextet(x[i + 2]) {
            Some(c) => c,
            None => {
                return None;
            },
        };
        bytes.push(b % 16 * 16 + c / 4);
        if x.len() - i == 3 {
            proof {
                assert(bytes@ =~= before + seq![
                    (a * 4 + b / 16) as u8,
                    (b % 16 * 16 + c / 4) as u8,
                ]);
            }
            return Some(bytes);
        }
        let d = match read_sextet(x[i + 3]) {
            Some(d) => d,
            None => {
                return None;
            },
        };
        bytes.push(c % 4 * 64 + d);
        proof {
            let three = seq![
                (a * 4 + b / 16) as u8,
                (b % 16 * 16 + c / 4) as u8,
                (c % 4 * 64 + d) as u8,
            ];
            assert(bytes@ =~= before + three);
            if base64_bytes(left.skip(4)) is Some {
                let rest = base64_bytes(left.skip(4))->0;
                assert(before + (three + rest) =~= bytes@ + rest);
            }
        }
        i += 4;
    }
    proof {
        assert(s@.skip(i as int) =~= seq![]);
        assert(bytes@ + seq![] =~= bytes@);
    }
    Some(bytes)
}

// ---------------------------------------------------------------------------
// Email addresses
// ---------------------------------------------------------------------------
/// How many characters stand before the first `c` in `s`, or in `s` where it has none.
pub open spec fn length_up_to(s: Seq<char>, c: char) -> nat
    decreases s.len(),
{
    if s.len() == 0 || s[0] == c {
        0
    } else {
        1 + length_up_to(s.skip(1), c)
    }
}

/// The part of a token between its first and its second dot, which carries the claims.
pub open spec fn claims_part(token: Seq<char>) -> Option<Seq<char>> {
    let head = length_up_to(token, '.') as int;
    let tail = token.skip(head + 1);
    let length = length_up_to(tail, '.') as int;
    if head < token.len() && length < tail.len() {
        Some(tail.take(length))
    } else {
        None
    }
}

/// The claims that a token carries, as a JSON document.
pub open spec fn claims_of(token: Seq<char>) -> Option<Tree> {
    match claims_part(token) {
        Some(part) => match base64_bytes(part) {
            Some(bytes) => if vstd::utf8::valid_utf8(bytes) {
                json_document(vstd::utf8::decode_utf8(bytes))
            } else {
                None
            },
            None => None,
        },
        None => None,
    }
}

/// The email address that a document names.
pub open spec fn email_in(doc: Option<Tree>) -> Option<Seq<char>> {
    match doc {
        Some(tree) => tree.text_field("email"@),
        None => None,
    }
}

/// The token for the identity in the auth metadata of a session.
pub open spec fn identity_token(auth: Tree) -> Option<Seq<char>> {
    match auth.field("tokens"@) {
        Some(tokens) => tokens.text_field("id_token"@),
        None => None,
    }
}

/// The email address of a session, given its auth metadata: the one among the claims of the
/// token for the identity, or else the one that stands in the metadata itself.
pub open spec fn account_email(auth: Tree) -> Option<Seq<char>> {
    let claimed = match identity_token(auth) {
        Some(token) => email_in(claims_of(token)),
        None => None,
    };
    if claimed is Some {
        claimed
    } else {
        email_in(Some(auth))
    }
}

proof fn length_up_to_is(s: Seq<char>, c: char, n: int)
    requires
        0 <= n <= s.len(),
        forall|i: int| 0 <= i < n ==> s[i] != c,
        n < s.len() ==> s[n] == c,
    ensures
        length_up_to(s, c) == n,
    decreases s.len(),
{
    if n > 0 {
        assert(s[0] != c);
        assert forall|i: int| 0 <= i < n - 1 implies s.skip(1)[i] != c by {
            assert(s.skip(1)[i] == s[i + 1]);
        }
        length_up_to_is(s.skip(1), c, n - 1);
    }
}

/// The place of the first `c` in `x` from `from` on, or the end of `x`.
fn find_char(x: &Vec<char>, from: usize, c: char) -> (n: usize)
    requires
        from <= x@.len(),
    ensures
        from <= n <= x@.len(),
        n - from == length_up_to(x@.skip(from as int), c),
{
    let mut n: usize = from;
    while n < x.len() && x[n] != c
        invariant
            from <= n <= x@.len(),
            forall|i: int| from <= i < n ==> x@[i] != c,
        decreases x@.len() - n,
    {
        n += 1;
    }
    proof {
        let s = x@.skip(from as int);
        assert forall|i: int| 0 <= i < n - from implies s[i] != c by {
            assert(s[i] == x@[i + from]);
        }
        length_up_to_is(s, c, n - from);
    }
    n
}

/// The claims that a token carries.
pub fn read_claims(token: &str) -> (r: Option<Json>)
    ensures
        match r {
            Some(json) => claims_of(token@) == Some(json@),
            None => claims_of(token@) is None,
        },
{
    let x = characters(token);
    proof {
        assert(token@.skip(0) =~= token@);
    }
    let head: usize = find_char(&x, 0, '.');
    if head == x.len() {
        return None;
    }
    let end: usize = find_char(&x, head + 1, '.');
    if end == x.len() {
        return None;
    }
    let part = slice_text(&x, head + 1, end);
    proof {
        assert(part@ =~= token@.skip(head + 1).take(end - head - 1));
    }
    let bytes = match decode_base64(part.as_str()) {
        Some(bytes) => bytes,
        None => {
            return None;
        },
    };
    match decode_text(bytes.as_slice()) {
        Ok(text) => parse_json(text.as_str()),
        Err(_) => None,
    }
}

/// The email address of a session, given its auth metadata.
pub fn email_of(auth: &Json) -> (r: Option<String>)
    ensures
        match r {
            Some(email) => account_email(auth@) == Some(email@),
            None => account_email(auth@) is None,
        },
{
    if let Some(tokens) = auth.field("tokens") {
        if let Some(token) = tokens.text_field("id_token") {
            if let Some(claims) = read_claims(token.as_str()) {
                if let Some(email) = claims.text_field("email") {
                    return Some(email.clone());
                }
            }
        }
    }
    match auth.text_field("email") {
        Some(email) => Some(email.clone()),
        None => None,
    }
}

/// The email address of a session, given the text of its auth metadata, where there is one.
pub fn session_email(auth: Option<&str>) -> (r: Option<String>)
    ensures
        match r {
            Some(email) => auth is Some && json_document(auth->0@) is Some && account_email(
                json_document(auth->0@)->0,
            ) == Some(email@),
            None => auth is Some && json_document(auth->0@) is Some ==> account_email(
                json_document(auth->0@)->0,
            ) is None,
        },
{
    match auth {
        Some(text) => match parse_json(text) {
            Some(json) => email_of(&json),
            None => None,
        },
        None => None,
    }
}

// ---------------------------------------------------------------------------
// Finding sessions
// ---------------------------------------------------------------------------
/// A session and the email address that it is logged in with, where that is known.
#[derive(Debug)]
pub struct Account {
    pub alias: String,
    pub email: Option<String>,
}

/// `c`, a capital letter of ASCII made small.
pub open spec fn small(c: char) -> char {
    if 'A' <= c <= 'Z' {
        (c as int + 32) as char
    } else {
        c
    }
}

/// Whether two texts are the same but for the case of the letters of ASCII.
pub open spec fn same_but_for_case(a: Seq<char>, b: Seq<char>) -> bool {
    a.len() == b.len() && forall|i: int|
        0 <= i < a.len() ==> small(#[trigger] a[i]) == small(b[i])
}

/// Whether a session is logged in with `email`.
pub open spec fn has_email(account: Account, email: Seq<char>) -> bool {
    account.email is Some && same_but_for_case(account.email->0@, email)
}

/// The aliases of the sessions that are logged in with `email`, in order.
pub open spec fn aliases_with(accounts: Seq<Account>, email: Seq<char>) -> Seq<Seq<char>>
    decreases accounts.len(),
{
    if accounts.len() == 0 {
        seq![]
    } else if has_email(accounts.last(), email) {
        aliases_with(accounts.drop_last(), email).push(accounts.last().alias@)
    } else {
        aliases_with(accounts.drop_last(), email)
    }
}

/// Sessions are found by an email address however its letters are written.
pub proof fn the_case_of_an_email_does_not_matter(
    accounts: Seq<Account>,
    email: Seq<char>,
    other: Seq<char>,
)
    requires
        same_but_for_case(email, other),
    ensures
        aliases_with(accounts, email) == aliases_with(accounts, other),
    decreases accounts.len(),
{
    if accounts.len() > 0 {
        the_case_of_an_email_does_not_matter(accounts.drop_last(), email, other);
        let last = accounts.last();
        if last.email is Some {
            let own = last.email->0@;
            if own.len() == email.len() {
                assert forall|i: int| 0 <= i < own.len() implies (small(#[trigger] own[i])
                    == small(email[i])) == (small(own[i]) == small(other[i])) by {
                    assert(small(email[i]) == small(other[i]));
                }
                if has_email(last, email) {
                    assert(forall|i: int|
                        0 <= i < own.len() ==> small(#[trigger] own[i]) == small(other[i]));
                }
                if has_email(last, other) {
                    assert(forall|i: int|
                        0 <= i < own.len() ==> small(#[trigger] own[i]) == small(email[i]));
                }
            }
        }
    }
}

/// An alias is found by an email address exactly where a session of that alias is logged in with
/// it.
pub proof fn aliases_are_found_by_their_email(
    accounts: Seq<Account>,
    email: Seq<char>,
    alias: Seq<char>,
)
    ensures
        aliases_with(accounts, email).contains(alias) <==> exists|i: int|
            0 <= i < accounts.len() && (#[trigger] accounts[i]).alias@ == alias && has_email(
                accounts[i],
                email,
            ),
    decreases accounts.len(),
{
    if accounts.len() > 0 {
        let front = accounts.drop_last();
        let found = aliases_with(front, email);
        aliases_are_found_by_their_email(front, email, alias);
        if found.contains(alias) {
            let i = choose|i: int|
                0 <= i < front.len() && (#[trigger] front[i]).alias@ == alias && has_email(
                    front[i],
                    email,
                );
            assert(accounts[i] == front[i]);
            let k = choose|k: int| 0 <= k < found.len() && found[k] == alias;
            assert(found.push(accounts.last().alias@)[k] == alias);
        }
        if has_email(accounts.last(), email) && accounts.last().alias@ == alias {
            assert(found.push(alias)[found.len() as int] == alias);
            assert(accounts[accounts.len() - 1].alias@ == alias);
        }
        if exists|i: int|
            0 <= i < accounts.len() && (#[trigger] accounts[i]).alias@ == alias && has_email(
                accounts[i],
                email,
            ) {
            let i = choose|i: int|
                0 <= i < accounts.len() && (#[trigger] accounts[i]).alias@ == alias && has_email(
                    accounts[i],
                    email,
                );
            if i < front.len() {
                assert(front[i] == accounts[i]);
            }
        }
    }
}

/// Whether what names a session is an email address and no alias.
pub fn is_email(target: &str) -> (r: bool)
    ensures
        r == target@.contains('@'),
{
    holds_char(target, '@')
}

fn make_small(c: char) -> (r: u32)
    ensures
        r == small(c) as int,
{
    let n: u32 = code_point(c);
    if 'A' <= c && c <= 'Z' {
        n + 32
    } else {
        n
    }
}

fn equal_but_for_case(a: &str, b: &str) -> (r: bool)
    ensures
        r == same_but_for_case(a@, b@),
{
    let x = characters(a);
    let y = characters(b);
    if x.len() != y.len() {
        return false;
    }
    let mut i: usize = 0;
    while i < x.len()
        invariant
            i <= x@.len(),
            x@ == a@,
            y@ == b@,
            x@.len() == y@.len(),
            forall|k: int| 0 <= k < i ==> small(#[trigger] a@[k]) == small(b@[k]),
        decreases x@.len() - i,
    {
        if make_small(x[i]) != make_small(y[i]) {
            proof {
                assert(small(a@[i as int]) != small(b@[i as int]));
            }
            return false;
        }
        i += 1;
    }
    true
}

/// The alias of the one session that is logged in with `email`, or what is wrong where there is
/// none or more than one.
pub open spec fn resolution(accounts: Seq<Account>, email: Seq<char>) -> Result<
    Seq<char>,
    (ErrorKind, Seq<char>),
> {
    let found = aliases_with(accounts, email);
    if found.len() == 0 {
        Err(
            (
                ErrorKind::NotFound,
                "no session found for email "@ + email
                    + "; create or select an alias with: agentlb new <alias>"@,
            ),
        )
    } else if found.len() == 1 {
        Ok(found[0])
    } else {
        Err(
            (
                ErrorKind::InvalidInput,
                "several sessions found for email "@ + email + ": "@ + joined(found, ", "@)
                    + "; select one with: agentlb new <alias>"@,
            ),
        )
    }
}

/// The alias of the one session that is logged in with `email`.
pub fn resolve_email(email: &str, accounts: &Vec<Account>) -> (r: Result<String, Error>)
    ensures
        match (r, resolution(accounts@, email@)) {
            (Ok(alias), Ok(found)) => alias@ == found,
            (Err(e), Err((kind, message))) => e.says(kind, message),
            _ => false,
        },
{
    let mut found: Vec<String> = Vec::new();
    let mut i: usize = 0;
    proof {
        assert(accounts@.take(0) =~= seq![]);
        assert(texts(found@) =~= seq![]);
    }
    while i < accounts.len()
        invariant
            i <= accounts@.len(),
            texts(found@) == aliases_with(accounts@.take(i as int), email@),
        decreases accounts@.len() - i,
    {
        let ghost longer = accounts@.take(i + 1);
        let ghost earlier = found@;
        proof {
            assert(longer.drop_last() =~= accounts@.take(i as int));
        }
        let holds = match &accounts[i].email {
            Some(own) => equal_but_for_case(own.as_str(), email),
            None => false,
        };
        if holds {
            found.push(accounts[i].alias.clone());
            proof {
                assert(texts(found@) =~= texts(earlier).push(accounts@[i as int].alias@));
            }
        }
        i += 1;
    }
    proof {
        assert(accounts@.take(i as int) =~= accounts@);
        assert(texts(found@).len() == found@.len());
    }
    if found.len() == 0 {
        let message = "no session found for email ".to_string().concat(email).concat(
            "; create or select an alias with: agentlb new <alias>",
        );
        return Err(Error { kind: ErrorKind::NotFound, message });
    }
    if found.len() > 1 {
        let message = "several sessions found for email ".to_string().concat(email).concat(
            ": ",
        ).concat(join_texts(&found, ", ").as_str()).concat(
            "; select one with: agentlb new <alias>",
        );
        return Err(Error { kind: ErrorKind::InvalidInput, message });
    }
    let alias = found[0].clone();
    proof {
        assert(texts(found@)[0] == alias@);
    }
    Ok(alias)
}

// ---------------------------------------------------------------------------
// Listing sessions
// ---------------------------------------------------------------------------
/// The line for a session: its alias, its email address or `-`, and its directory, with a tab
/// between each two.
pub open spec fn account_line(st: StoreView, account: Account) -> Seq<char> {
    account.alias@ + "\t"@ + (match account.email {
        Some(email) => email@,
        None => "-"@,
    }) + "\t"@ + path_below(st.sessions_dir, account.alias@)
}

/// The lines for the sessions, in order.
pub fn list_accounts(st: &Store, accounts: &Vec<Account>) -> (lines: Vec<String>)
    ensures
        texts(lines@) == Seq::new(accounts@.len(), |i: int| account_line(st@, accounts@[i])),
{
    let mut lines: Vec<String> = Vec::new();
    let mut i: usize = 0;
    while i < accounts.len()
        invariant
            i <= accounts@.len(),
            lines@.len() == i,
            forall|k: int| 0 <= k < i ==> (#[trigger] lines@[k])@ == account_line(
                st@,
                accounts@[k],
            ),
        decreases accounts@.len() - i,
    {
        let account = &accounts[i];
        let start = account.alias.clone().concat("\t");
        let middle = match &account.email {
            Some(email) => start.concat(email.as_str()),
            None => start.concat("-"),
        };
        let line = middle.concat("\t").concat(st.session_dir(account.alias.as_str()).as_str());
        lines.push(line);
        i += 1;
    }
    proof {
        assert(texts(lines@) =~= Seq::new(
            accounts@.len(),
            |i: int| account_line(st@, accounts@[i]),
        ));
    }
    lines
}

// ---------------------------------------------------------------------------
// Laws
// ---------------------------------------------------------------------------
/// Two addresses are the same but for case exactly where they are equally long and have, at each
/// place, the same character or the two cases of one letter from A to Z.
pub proof fn only_the_case_of_letters_may_differ(a: Seq<char>, b: Seq<char>)
    ensures
        same_but_for_case(a, b) <==> a.len() == b.len() && forall|i: int|
            #![trigger a[i]]
            #![trigger b[i]]
            0 <= i < a.len() ==> {
                let x = a[i] as int;
                let y = b[i] as int;
                x == y || (65 <= x <= 90 && y == x + 32) || (65 <= y <= 90 && x == y + 32)
            },
{
    if a.len() == b.len() {
        assert forall|i: int|
            #![trigger a[i]]
            0 <= i < a.len() implies (small(a[i]) == small(b[i])) == ({
            let x = a[i] as int;
            let y = b[i] as int;
            x == y || (65 <= x <= 90 && y == x + 32) || (65 <= y <= 90 && x == y + 32)
        }) by {
            letters_have_two_cases(a[i], b[i]);
        }
        if same_but_for_case(a, b) {
            assert forall|i: int|
                #![trigger a[i]]
                #![trigger b[i]]
                0 <= i < a.len() implies {
                let x = a[i] as int;
                let y = b[i] as int;
                x == y || (65 <= x <= 90 && y == x + 32) || (65 <= y <= 90 && x == y + 32)
            } by {
                assert(small(a[i]) == small(b[i]));
            }
        }
    }
}

proof fn letters_have_two_cases(a: char, b: char)
    ensures
        small(a) == small(b) <==> a == b || (65 <= a as int <= 90 && b as int == a as int + 32) || (
        65 <= b as int <= 90 && a as int == b as int + 32),
{
    if 'A' <= a <= 'Z' {
        assert(small(a) as int == a as int + 32);
    }
    if 'A' <= b <= 'Z' {
        assert(small(b) as int == b as int + 32);
    }
}

/// A character that is no letter from A to Z, in either case, matches only itself: addresses that
/// differ there are not the same.
pub proof fn what_is_no_letter_matches_only_itself(a: Seq<char>, b: Seq<char>, i: int)
    requires
        same_but_for_case(a, b),
        0 <= i < a.len(),
        !(65 <= a[i] as int <= 90 || 97 <= a[i] as int <= 122),
    ensures
        b[i] == a[i],
{
    only_the_case_of_letters_may_differ(a, b);
}

/// Sameness but for case is an equivalence.
pub proof fn sameness_but_for_case_is_an_equivalence(a: Seq<char>, b: Seq<char>, c: Seq<char>)
    ensures
        same_but_for_case(a, a),
        same_but_for_case(a, b) ==> same_but_for_case(b, a),
        same_but_for_case(a, b) && same_but_for_case(b, c) ==> same_but_for_case(a, c),
{
    if same_but_for_case(a, b) {
        assert forall|i: int| 0 <= i < b.len() implies small(#[trigger] b[i]) == small(a[i]) by {
            assert(small(a[i]) == small(b[i]));
        }
        if same_but_for_case(b, c) {
            assert forall|i: int| 0 <= i < a.len() implies small(#[trigger] a[i])
                == small(c[i]) by {
                assert(small(b[i]) == small(c[i]));
            }
        }
    }
}

/// A session without an address has no address, and one with an address has that one, in whatever
/// case, and no other.
pub proof fn an_account_has_its_own_address(account: Account, email: Seq<char>)
    ensures
        account.email is None ==> !has_email(account, email),
        account.email is Some ==> has_email(account, account.email->0@),
        account.email is Some && account.email->0@.len() != email.len() ==> !has_email(
            account,
            email,
        ),
        account.email is Some ==> (has_email(account, email) <==> same_but_for_case(
            account.email->0@,
            email,
        )),
{
}

/// The aliases that an address finds are those of the sessions with it, in the order of the
/// sessions: they are found session by session.
pub proof fn aliases_are_found_session_by_session(
    a: Seq<Account>,
    b: Seq<Account>,
    x: Account,
    email: Seq<char>,
)
    ensures
        aliases_with(seq![], email).len() == 0,
        has_email(x, email) ==> aliases_with(seq![x], email) == seq![x.alias@],
        !has_email(x, email) ==> aliases_with(seq![x], email).len() == 0,
        aliases_with(a + b, email) == aliases_with(a, email) + aliases_with(b, email),
    decreases b.len(),
{
    assert(aliases_with(seq![x].drop_last(), email) =~= seq![]);
    if b.len() == 0 {
        assert(a + b =~= a);
        assert(aliases_with(a, email) + aliases_with(b, email) =~= aliases_with(a, email));
    } else {
        aliases_are_found_session_by_session(a, b.drop_last(), x, email);
        assert((a + b).drop_last() =~= a + b.drop_last());
        assert((a + b).last() == b.last());
        assert(aliases_with(a + b, email) =~= aliases_with(a, email) + aliases_with(b, email));
    }
}

proof fn no_alias_is_found(accounts: Seq<Account>, email: Seq<char>)
    requires
        forall|i: int| 0 <= i < accounts.len() ==> !has_email(#[trigger] accounts[i], email),
    ensures
        aliases_with(accounts, email).len() == 0,
    decreases accounts.len(),
{
    if accounts.len() > 0 {
        assert(!has_email(accounts[accounts.len() - 1], email));
        assert forall|i: int| 0 <= i < accounts.drop_last().len() implies !has_email(
            #[trigger] accounts.drop_last()[i],
            email,
        ) by {
            assert(accounts.drop_last()[i] == accounts[i]);
        }
        no_alias_is_found(accounts.drop_last(), email);
    }
}

/// An address that one session has, and no other, leads to that session.
pub proof fn the_only_session_with_an_address_is_taken(
    accounts: Seq<Account>,
    i: int,
    email: Seq<char>,
)
    requires
        0 <= i < accounts.len(),
        has_email(accounts[i], email),
        forall|j: int|
            0 <= j < accounts.len() && j != i ==> !has_email(#[trigger] accounts[j], email),
    ensures
        resolution(accounts, email) == Ok::<Seq<char>, (ErrorKind, Seq<char>)>(accounts[i].alias@),
{
    let a = accounts.take(i);
    let x = accounts[i];
    let b = accounts.skip(i + 1);
    assert(accounts =~= a + (seq![x] + b));
    assert forall|j: int| 0 <= j < a.len() implies !has_email(#[trigger] a[j], email) by {
        assert(a[j] == accounts[j]);
    }
    assert forall|j: int| 0 <= j < b.len() implies !has_email(#[trigger] b[j], email) by {
        assert(b[j] == accounts[i + 1 + j]);
    }
    no_alias_is_found(a, email);
    no_alias_is_found(b, email);
    aliases_are_found_session_by_session(a, seq![x] + b, x, email);
    aliases_are_found_session_by_session(seq![x], b, x, email);
    assert(aliases_with(accounts, email) =~= seq![x.alias@]);
}

/// An address that no session has is not found, and one that several sessions have leads to none of
/// them; the error names the address and, where there are several, all that have it.
pub proof fn other_addresses_lead_nowhere(
    accounts: Seq<Account>,
    i: int,
    j: int,
    email: Seq<char>,
)
    ensures
        (forall|k: int| 0 <= k < accounts.len() ==> !has_email(#[trigger] accounts[k], email))
            ==> match resolution(accounts, email) {
            Ok(_) => false,
            Err((kind, message)) => kind == ErrorKind::NotFound && message
                == "no session found for email "@ + email
                + "; create or select an alias with: agentlb new <alias>"@,
        },
        0 <= i < j < accounts.len() && has_email(accounts[i], email) && has_email(
            accounts[j],
            email,
        ) ==> match resolution(accounts, email) {
            Ok(_) => false,
            Err((kind, message)) => kind == ErrorKind::InvalidInput && message
                == "several sessions found for email "@ + email + ": "@ + joined(
                aliases_with(accounts, email),
                ", "@,
            ) + "; select one with: agentlb new <alias>"@,
        },
{
    if forall|k: int| 0 <= k < accounts.len() ==> !has_email(#[trigger] accounts[k], email) {
        no_alias_is_found(accounts, email);
    }
    if 0 <= i < j < accounts.len() && has_email(accounts[i], email) && has_email(
        accounts[j],
        email,
    ) {
        let a = accounts.take(j);
        let b = accounts.skip(j);
        assert(accounts =~= a + b);
        aliases_are_found_session_by_session(a, b, accounts[i], email);
        assert(a[i] == accounts[i]);
        assert(b[0] == accounts[j]);
        aliases_are_found_by_their_email(a, email, accounts[i].alias@);
        aliases_are_found_by_their_email(b, email, accounts[j].alias@);
    }
}

/// A session is listed with its alias, its address and its directory, in columns, and without an
/// address as if that were a dash.
pub proof fn sessions_are_listed_in_columns(st: StoreView, account: Account)
    ensures
        account.email is Some ==> account_line(st, account) == account.alias@ + "\t"@
            + account.email->0@ + "\t"@ + path_below(st.sessions_dir, account.alias@),
        account.email is None ==> account_line(st, account) == account.alias@ + "\t-\t"@
            + path_below(st.sessions_dir, account.alias@),
{
    reveal_strlit("\t");
    reveal_strlit("-");
    reveal_strlit("\t-\t");
    assert("\t-\t"@ =~= "\t"@ + "-"@ + "\t"@);
    if account.email is None {
        assert(account_line(st, account) =~= account.alias@ + "\t-\t"@ + path_below(
            st.sessions_dir,
            account.alias@,
        ));
    }
}

/// The digits of the encoding are the capital letters, the small letters, the figures, the hyphen
/// and the underscore, each a run that counts on from the one before; nothing else is one.
pub proof fn the_digits_of_the_encoding_count_on(c: char, d: char)
    ensures
        sextet('A') == Some(0int),
        c as int + 1 == d as int && 65 <= c as int <= 89 ==> sextet(d) == Some(
            sextet(c)->0 + 1,
        ) && sextet(c) is Some,
        sextet('a') == Some(sextet('Z')->0 + 1),
        c as int + 1 == d as int && 97 <= c as int <= 121 ==> sextet(d) == Some(
            sextet(c)->0 + 1,
        ) && sextet(c) is Some,
        sextet('0') == Some(sextet('z')->0 + 1),
        c as int + 1 == d as int && 48 <= c as int <= 56 ==> sextet(d) == Some(
            sextet(c)->0 + 1,
        ) && sextet(c) is Some,
        sextet('-') == Some(sextet('9')->0 + 1),
        sextet('_') == Some(63int),
        sextet(c) is Some <==> 65 <= c as int <= 90 || 97 <= c as int <= 122 || 48 <= c as int
            <= 57 || c == '-' || c == '_',
        sextet(c) is Some && sextet(c) == sextet(d) ==> c == d,
{
}

/// Four digits make three bytes that are together the number the digits make; two make one byte and
/// three make two, of which the last bits do not count; one digit makes nothing.
pub proof fn digits_and_bytes_make_the_same_number(s: Seq<char>)
    requires
        forall|i: int| 0 <= i < s.len() ==> sextet(#[trigger] s[i]) is Some,
    ensures
        s.len() == 0 ==> base64_bytes(s) == Some(Seq::<u8>::empty()),
        s.len() == 1 ==> base64_bytes(s) is None,
        s.len() == 2 ==> {
            let b = base64_bytes(s)->0;
            let n = sextet(s[0])->0 * 64 + sextet(s[1])->0;
            base64_bytes(s) is Some && b.len() == 1 && b[0] == n / 16
        },
        s.len() == 3 ==> {
            let b = base64_bytes(s)->0;
            let n = (sextet(s[0])->0 * 64 + sextet(s[1])->0) * 64 + sextet(s[2])->0;
            base64_bytes(s) is Some && b.len() == 2 && b[0] * 256 + b[1] == n / 4
        },
        s.len() == 4 ==> {
            let b = base64_bytes(s)->0;
            let n = ((sextet(s[0])->0 * 64 + sextet(s[1])->0) * 64 + sextet(s[2])->0) * 64 + sextet(
                s[3],
            )->0;
            base64_bytes(s) is Some && b.len() == 3 && (b[0] * 256 + b[1]) * 256 + b[2] == n
        },
{
    if s.len() > 0 {
        assert(sextet(s[0]) is Some);
    }
    if s.len() > 1 {
        assert(sextet(s[1]) is Some);
    }
    if s.len() > 2 {
        assert(sextet(s[2]) is Some);
    }
    if s.len() == 4 {
        assert(sextet(s[3]) is Some);
        assert(base64_bytes(s.skip(4)) == Some(Seq::<u8>::empty()));
    }
}

/// Groups of four digits are read one by one: a text is read where each group is, and gives the
/// bytes of one group after the other.
pub proof fn groups_are_read_one_by_one(a: Seq<char>, b: Seq<char>)
    requires
        a.len() == 4,
        b.len() > 0,
    ensures
        base64_bytes(a + b) is Some <==> base64_bytes(a) is Some && base64_bytes(b) is Some,
        base64_bytes(a + b) is Some ==> base64_bytes(a + b)->0 == base64_bytes(a)->0
            + base64_bytes(b)->0,
{
    let s = a + b;
    assert(s.skip(4) =~= b);
    assert(a.skip(4) =~= seq![]);
    assert(base64_bytes(a.skip(4)) == Some(Seq::<u8>::empty()));
    assert(s[0] == a[0] && s[1] == a[1] && s[2] == a[2] && s[3] == a[3]);
    if base64_bytes(s) is Some {
        assert(base64_bytes(s)->0 =~= base64_bytes(a)->0 + base64_bytes(b)->0);
    }
}

/// A text in which something is no digit of the encoding is not read.
pub proof fn other_characters_are_not_read(s: Seq<char>, i: int)
    requires
        0 <= i < s.len(),
        sextet(s[i]) is None,
    ensures
        base64_bytes(s) is None,
    decreases s.len(),
{
    if s.len() >= 4 && i >= 4 {
        assert(s.skip(4)[i - 4] == s[i]);
        other_characters_are_not_read(s.skip(4), i - 4);
    }
}

/// The claims of a token stand between its first two dots, whatever stands before and behind; a
/// token with fewer dots has none.
pub proof fn claims_stand_between_the_dots(
    head: Seq<char>,
    part: Seq<char>,
    rest: Seq<char>,
)
    requires
        forall|i: int| 0 <= i < head.len() ==> #[trigger] head[i] != '.',
        forall|i: int| 0 <= i < part.len() ==> #[trigger] part[i] != '.',
    ensures
        claims_part(head + seq!['.'] + part + seq!['.'] + rest) == Some(part),
        claims_part(head + seq!['.'] + part) is None,
        claims_part(head) is None,
{
    let token = head + seq!['.'] + part + seq!['.'] + rest;
    let tail = part + seq!['.'] + rest;
    length_up_to_is(token, '.', head.len() as int);
    assert(token.skip(head.len() as int + 1) =~= tail);
    length_up_to_is(tail, '.', part.len() as int);
    assert(tail.take(part.len() as int) =~= part);
    let short = head + seq!['.'] + part;
    length_up_to_is(short, '.', head.len() as int);
    assert(short.skip(head.len() as int + 1) =~= part);
    length_up_to_is(part, '.', part.len() as int);
    length_up_to_is(head, '.', head.len() as int);
}

/// The claims of a token are what its middle part says: bytes in the encoding that are a text that
/// is a document.
pub proof fn claims_are_what_the_token_says(
    head: Seq<char>,
    bytes: Seq<u8>,
    rest: Seq<char>,
)
    requires
        forall|i: int| 0 <= i < head.len() ==> #[trigger] head[i] != '.',
        forall|i: int|
            0 <= i < base64_text(bytes).len() ==> #[trigger] base64_text(bytes)[i] != '.',
    ensures
        ({
            let token = head + seq!['.'] + base64_text(bytes) + seq!['.'] + rest;
            &&& vstd::utf8::valid_utf8(bytes) ==> claims_of(token) == json_document(
                vstd::utf8::decode_utf8(bytes),
            )
            &&& !vstd::utf8::valid_utf8(bytes) ==> claims_of(token) is None
        }),
{
    claims_stand_between_the_dots(head, base64_text(bytes), rest);
    base64_reads_back(bytes);
}

/// The address of a session is the one that its identity token claims; where that claims none, or
/// there is none, it is the one that stands in the document itself.
pub proof fn the_claimed_address_comes_first(
    auth: Tree,
    token: Seq<char>,
    claims: Tree,
    email: Seq<char>,
)
    ensures
        auth.nested("tokens"@, "id_token"@) == Some(Tree::Text(token)) && claims_of(token) == Some(
            claims,
        ) && claims.field("email"@) == Some(Tree::Text(email)) ==> account_email(auth) == Some(
            email,
        ),
        auth.nested("tokens"@, "id_token"@) == Some(Tree::Text(token)) && (claims_of(token) is None
            || claims_of(token) == Some(claims) && claims.text_field("email"@) is None)
            && auth.field("email"@) == Some(Tree::Text(email)) ==> account_email(auth) == Some(
            email,
        ),
        auth.nested("tokens"@, "id_token"@) == Some(Tree::Text(token)) && (claims_of(token) is None
            || claims_of(token) == Some(claims) && claims.text_field("email"@) is None)
            && auth.text_field("email"@) is None ==> account_email(auth) is None,
        !(auth.nested("tokens"@, "id_token"@) is Some && auth.nested(
            "tokens"@,
            "id_token"@,
        )->0 is Text) ==> account_email(auth) == auth.text_field("email"@),
{
}

} // verus!
