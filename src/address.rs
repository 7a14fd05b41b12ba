use vstd::prelude::*;
use vstd::string::*;

use crate::number::{
    decimal, is_digit, is_u32_text, lemma_decimal, lemma_u32_text_round_trip, parse_u32, u32_of_text,
};
use crate::text::{lowercase_text, lowered, push_char, same_text, trim_text, trimmed};

verus! {

/// Why a transport URI was not accepted.
#[derive(Debug, Clone, Copy, PartialEq, Eq)]
pub enum AddressError {
    /// The URI does not hold `://` exactly once.
    InvalidUri,
    /// The scheme is neither `unix` nor `vsock`.
    InvalidScheme,
    /// A VSOCK address does not hold `:` exactly once.
    InvalidVsockUri,
    /// The context id of a VSOCK address is not a number.
    CidNotNumeric,
    /// The port of a VSOCK address is not a number.
    PortNotNumeric,
}

/// A transport address, as a URI names it.
#[derive(Debug, Clone, PartialEq, Eq)]
pub enum Address {
    /// A Unix socket with an entry in the file system.
    UnixNamed { path: String },
    /// An abstract Unix socket; `name` ends with the NUL that peers expect.
    UnixAbstract { name: String },
    /// A VSOCK endpoint.
    Vsock { cid: u32, port: u32 },
}

/// The mathematical value of an [`Address`].
pub enum AddressModel {
    UnixNamed(Seq<char>),
    UnixAbstract(Seq<char>),
    Vsock(u32, u32),
}

impl View for Address {
    type V = AddressModel;

    open spec fn view(&self) -> AddressModel {
        match self {
            Address::UnixNamed { path } => AddressModel::UnixNamed(path@),
            Address::UnixAbstract { name } => AddressModel::UnixAbstract(name@),
            Address::Vsock { cid, port } => AddressModel::Vsock(*cid, *port),
        }
    }
}

pub open spec fn result_view(r: Result<Address, AddressError>) -> Result<AddressModel, AddressError> {
    match r {
        Ok(a) => Ok(a@),
        Err(e) => Err(e),
    }
}

/// The leading character of a path that names an abstract socket.
pub const ABSTRACT_SENTINEL: char = '@';

/// The context id that stands for any context.
pub const CID_ANY: u32 = 0xFFFF_FFFF;

pub open spec fn unix_scheme() -> Seq<char> {
    seq!['u', 'n', 'i', 'x']
}

pub open spec fn vsock_scheme() -> Seq<char> {
    seq!['v', 's', 'o', 'c', 'k']
}

/// Whether the separator `://` starts at position `i` of `s`.
pub open spec fn sep_at(s: Seq<char>, i: int) -> bool {
    0 <= i && i + 3 <= s.len() && s[i] == ':' && s[i + 1] == '/' && s[i + 2] == '/'
}

/// Whether `i` is the only position at which `://` starts.
pub open spec fn only_sep_at(s: Seq<char>, i: int) -> bool {
    sep_at(s, i) && forall|j: int| #[trigger] sep_at(s, j) ==> j == i
}

pub open spec fn has_one_sep(s: Seq<char>) -> bool {
    exists|i: int| only_sep_at(s, i)
}

pub open spec fn sep_pos(s: Seq<char>) -> int {
    choose|i: int| only_sep_at(s, i)
}

/// What stands before `://`.
pub open spec fn scheme_part(s: Seq<char>) -> Seq<char> {
    s.take(sep_pos(s))
}

/// What stands after `://`.
pub open spec fn rest_part(s: Seq<char>) -> Seq<char> {
    s.skip(sep_pos(s) + 3)
}

/// Whether `i` is the only position of a `:` in `s`.
pub open spec fn only_colon_at(s: Seq<char>, i: int) -> bool {
    0 <= i < s.len() && s[i] == ':' && forall|j: int| 0 <= j < s.len() && #[trigger] s[j] == ':' ==> j == i
}

pub open spec fn has_one_colon(s: Seq<char>) -> bool {
    exists|i: int| only_colon_at(s, i)
}

pub open spec fn colon_pos(s: Seq<char>) -> int {
    choose|i: int| only_colon_at(s, i)
}

/// Whether a context id's text stands for any context.
pub open spec fn is_any_cid(c: Seq<char>) -> bool {
    c.len() == 0 || c == seq!['-', '1']
}

pub open spec fn is_abstract_path(path: Seq<char>, force_abstract: bool) -> bool {
    force_abstract || (path.len() > 0 && path[0] == ABSTRACT_SENTINEL)
}

/// The address that `cid:port` names.
pub open spec fn vsock_address(rest: Seq<char>) -> Result<AddressModel, AddressError> {
    if !has_one_colon(rest) {
        Err(AddressError::InvalidVsockUri)
    } else {
        let cid = rest.take(colon_pos(rest));
        let port = rest.skip(colon_pos(rest) + 1);
        if !is_any_cid(cid) && !is_u32_text(cid) {
            Err(AddressError::CidNotNumeric)
        } else if !is_u32_text(port) {
            Err(AddressError::PortNotNumeric)
        } else {
            Ok(
                AddressModel::Vsock(
                    if is_any_cid(cid) {
                        CID_ANY
                    } else {
                        u32_of_text(cid)
                    },
                    u32_of_text(port),
                ),
            )
        }
    }
}

/// The address for a scheme, already in lower case, and what follows `://`.
pub open spec fn scheme_address(scheme: Seq<char>, rest: Seq<char>, force_abstract: bool) -> Result<
    AddressModel,
    AddressError,
> {
    if scheme == unix_scheme() {
        if is_abstract_path(rest, force_abstract) {
            Ok(AddressModel::UnixAbstract(rest.push('\0')))
        } else {
            Ok(AddressModel::UnixNamed(rest))
        }
    } else if scheme == vsock_scheme() {
        vsock_address(rest)
    } else {
        Err(AddressError::InvalidScheme)
    }
}

/// The address that a URI names.
pub open spec fn uri_address(uri: Seq<char>, force_abstract: bool) -> Result<AddressModel, AddressError> {
    let t = trimmed(uri);
    if !has_one_sep(t) {
        Err(AddressError::InvalidUri)
    } else {
        scheme_address(lowered(scheme_part(t)), rest_part(t), force_abstract)
    }
}

/// Finds the one position of `://` in `s`, if there is exactly one.
fn find_one_sep(s: &str) -> (r: Option<usize>)
    ensures
        r is Some <==> has_one_sep(s@),
        r matches Some(p) ==> only_sep_at(s@, p as int),
{
    let n = s.unicode_len();
    let mut found: Option<usize> = None;
    let mut i: usize = 0;
    while n >= 3 && i <= n - 3
        invariant
            n == s@.len(),
            i <= n,
            found matches Some(p) ==> sep_at(s@, p as int) && p < i,
            forall|j: int| 0 <= j < i && #[trigger] sep_at(s@, j) ==> found == Some(j as usize),
        decreases n - i,
    {
        if s.get_char(i) == ':' && s.get_char(i + 1) == '/' && s.get_char(i + 2) == '/' {
            if found.is_some() {
                assert(!has_one_sep(s@)) by {
                    if has_one_sep(s@) {
                        let k = choose|k: int| only_sep_at(s@, k);
                        assert(sep_at(s@, i as int));
                    }
                }
                return None;
            }
            found = Some(i);
        }
        i = i + 1;
    }
    match found {
        Some(p) => {
            assert(only_sep_at(s@, p as int));
            Some(p)
        },
        None => {
            assert(!has_one_sep(s@)) by {
                if has_one_sep(s@) {
                    let k = choose|k: int| only_sep_at(s@, k);
                    assert(sep_at(s@, k));
                }
            }
            None
        },
    }
}

/// Finds the one position of `:` in `s`, if there is exactly one.
fn find_one_colon(s: &str) -> (r: Option<usize>)
    ensures
        r is Some <==> has_one_colon(s@),
        r matches Some(p) ==> only_colon_at(s@, p as int),
{
    let n = s.unicode_len();
    let mut found: Option<usize> = None;
    let mut i: usize = 0;
    while i < n
        invariant
            n == s@.len(),
            i <= n,
            found matches Some(p) ==> p < i && s@[p as int] == ':',
            forall|j: int| 0 <= j < i && #[trigger] s@[j] == ':' ==> found == Some(j as usize),
        decreases n - i,
    {
        if s.get_char(i) == ':' {
            if found.is_some() {
                assert(!has_one_colon(s@)) by {
                    if has_one_colon(s@) {
                        let k = choose|k: int| only_colon_at(s@, k);
                        assert(s@[i as int] == ':');
                    }
                }
                return None;
            }
            found = Some(i);
        }
        i = i + 1;
    }
    match found {
        Some(p) => {
            assert(only_colon_at(s@, p as int));
            Some(p)
        },
        None => {
            assert(!has_one_colon(s@)) by {
                if has_one_colon(s@) {
                    let k = choose|k: int| only_colon_at(s@, k);
                    assert(s@[k] == ':');
                }
            }
            None
        },
    }
}

/// Splits a URI at its one `://` into the scheme and what follows.
pub fn split_uri(t: &str) -> (r: Option<(&str, &str)>)
    ensures
        r is Some <==> has_one_sep(t@),
        r matches Some((scheme, rest)) ==> scheme@ == scheme_part(t@) && rest@ == rest_part(t@),
{
    let p = match find_one_sep(t) {
        Some(p) => p,
        None => return None,
    };
    proof {
        assert(sep_pos(t@) == p as int);
    }
    let n = t.unicode_len();
    Some((t.substring_char(0, p), t.substring_char(p + 3, n)))
}

/// Reads the `cid:port` part of a VSOCK URI.
pub fn parse_vsock(rest: &str) -> (r: Result<Address, AddressError>)
    ensures
        result_view(r) == vsock_address(rest@),
{
    let p = match find_one_colon(rest) {
        Some(p) => p,
        None => return Err(AddressError::InvalidVsockUri),
    };
    let n = rest.unicode_len();
    let cid_text = rest.substring_char(0, p);
    let port_text = rest.substring_char(p + 1, n);
    assert(cid_text@ == rest@.take(colon_pos(rest@)));
    assert(port_text@ == rest@.skip(colon_pos(rest@) + 1));
    let empty = cid_text.unicode_len() == 0;
    let minus_one = same_text(cid_text, "-1");
    let any = empty || minus_one;
    proof {
        reveal_strlit("-1");
        assert("-1"@ =~= seq!['-', '1']);
        assert(any == is_any_cid(cid_text@));
    }
    let cid = if any {
        vmaddr_cid_any()
    } else {
        match parse_u32(cid_text) {
            Some(c) => c,
            None => return Err(AddressError::CidNotNumeric),
        }
    };
    let port = match parse_u32(port_text) {
        Some(v) => v,
        None => return Err(AddressError::PortNotNumeric),
    };
    Ok(Address::Vsock { cid, port })
}

/// Builds the address for a scheme, already in lower case, and the text after `://`.
pub fn parse_scheme_address(scheme: &str, rest: &str, force_abstract: bool) -> (r: Result<
    Address,
    AddressError,
>)
    ensures
        result_view(r) == scheme_address(scheme@, rest@, force_abstract),
{
    proof {
        reveal_strlit("unix");
        reveal_strlit("vsock");
        assert("unix"@ =~= unix_scheme());
        assert("vsock"@ =~= vsock_scheme());
    }
    if same_text(scheme, "unix") {
        let is_abstract = force_abstract || (rest.unicode_len() > 0 && rest.get_char(0)
            == ABSTRACT_SENTINEL);
        let mut path = String::from_str(rest);
        if is_abstract {
            push_char(&mut path, '\0');
            Ok(Address::UnixAbstract { name: path })
        } else {
            Ok(Address::UnixNamed { path })
        }
    } else if same_text(scheme, "vsock") {
        parse_vsock(rest)
    } else {
        Err(AddressError::InvalidScheme)
    }
}

/// Reads a transport URI: `unix://path`, `unix://@name` or `vsock://cid:port`.
/// The scheme is matched without regard to case, after surrounding white space
/// is trimmed; `force_abstract` makes every Unix path abstract.
pub fn parse_uri(uri: &str, force_abstract: bool) -> (r: Result<Address, AddressError>)
    ensures
        result_view(r) == uri_address(uri@, force_abstract),
{
    let t = trim_text(uri);
    let (scheme, rest) = match split_uri(t) {
        Some(parts) => parts,
        None => return Err(AddressError::InvalidUri),
    };
    let lower = lowercase_text(scheme);
    parse_scheme_address(lower.as_str(), rest, force_abstract)
}

/// The path bytes of an abstract socket's address record: a NUL, then the name.
pub open spec fn abstract_record_of(name: Seq<u8>) -> Seq<u8> {
    seq![0u8] + name
}

/// Builds the path bytes of an abstract socket's address record. Their number is
/// the exact address length to hand to bind or connect, with no padding.
pub fn abstract_record(name: &str) -> (r: Vec<u8>)
    ensures
        r@ == abstract_record_of(name.spec_bytes()),
        r@.len() == name.spec_bytes().len() + 1,
{
    let b = name.as_bytes();
    let mut v: Vec<u8> = Vec::new();
    v.push(0u8);
    let mut i: usize = 0;
    while i < b.len()
        invariant
            b@ == name.spec_bytes(),
            i <= b@.len(),
            v@ == seq![0u8] + b@.take(i as int),
        decreases b@.len() - i,
    {
        v.push(b[i]);
        i = i + 1;
        assert(v@ =~= seq![0u8] + b@.take(i as int));
    }
    assert(b@.take(i as int) =~= b@);
    v
}

/// A named Unix URI gives back its path unchanged.
pub proof fn lemma_named_unix(uri: Seq<char>)
    requires
        has_one_sep(trimmed(uri)),
        lowered(scheme_part(trimmed(uri))) == unix_scheme(),
        !is_abstract_path(rest_part(trimmed(uri)), false),
    ensures
        uri_address(uri, false) == Ok::<AddressModel, AddressError>(
            AddressModel::UnixNamed(rest_part(trimmed(uri))),
        ),
{
}

/// A Unix path that starts with the sentinel, or any Unix path when abstract
/// sockets are forced, gives an abstract address: the path with one NUL added,
/// whose record is one byte longer than the name.
pub proof fn lemma_abstract_unix(uri: Seq<char>, force_abstract: bool)
    requires
        has_one_sep(trimmed(uri)),
        lowered(scheme_part(trimmed(uri))) == unix_scheme(),
        is_abstract_path(rest_part(trimmed(uri)), force_abstract),
    ensures
        uri_address(uri, force_abstract) == Ok::<AddressModel, AddressError>(
            AddressModel::UnixAbstract(rest_part(trimmed(uri)).push('\0')),
        ),
        rest_part(trimmed(uri)).push('\0').last() == '\0',
        rest_part(trimmed(uri)).push('\0').drop_last() == rest_part(trimmed(uri)),
        forall|name: Seq<u8>| #[trigger] abstract_record_of(name).len() == name.len() + 1,
{
    assert(rest_part(trimmed(uri)).push('\0').drop_last() =~= rest_part(trimmed(uri)));
}

/// A VSOCK address: an empty or `-1` context id stands for any context, a
/// context id or port that is no number is refused with its own error, and
/// numbers are kept exactly.
pub proof fn lemma_vsock(rest: Seq<char>, force_abstract: bool)
    requires
        has_one_colon(rest),
    ensures
        ({
            let cid = rest.take(colon_pos(rest));
            let port = rest.skip(colon_pos(rest) + 1);
            let r = scheme_address(vsock_scheme(), rest, force_abstract);
            &&& is_any_cid(cid) && is_u32_text(port) ==> r == Ok::<AddressModel, AddressError>(
                AddressModel::Vsock(CID_ANY, u32_of_text(port)),
            )
            &&& !is_any_cid(cid) && !is_u32_text(cid) ==> r == Err::<AddressModel, AddressError>(
                AddressError::CidNotNumeric,
            )
            &&& (is_any_cid(cid) || is_u32_text(cid)) && !is_u32_text(port) ==> r == Err::<
                AddressModel,
                AddressError,
            >(AddressError::PortNotNumeric)
            &&& !is_any_cid(cid) && is_u32_text(cid) && is_u32_text(port) ==> r == Ok::<
                AddressModel,
                AddressError,
            >(AddressModel::Vsock(u32_of_text(cid), u32_of_text(port)))
        }),
{
    assert(vsock_scheme() != unix_scheme()) by {
        assert(vsock_scheme().len() != unix_scheme().len());
    }
}

/// The decimal texts of a context id and a port, joined by `:`, give back
/// exactly that context id and port.
pub proof fn lemma_vsock_round_trip(cid: u32, port: u32)
    ensures
        vsock_address(decimal(cid as nat) + seq![':'] + decimal(port as nat)) == Ok::<
            AddressModel,
            AddressError,
        >(AddressModel::Vsock(cid, port)),
{
    let c = decimal(cid as nat);
    let p = decimal(port as nat);
    let s = c + seq![':'] + p;
    lemma_decimal(cid as nat);
    lemma_decimal(port as nat);
    lemma_u32_text_round_trip(cid);
    lemma_u32_text_round_trip(port);
    let k = c.len() as int;
    assert(only_colon_at(s, k)) by {
        assert forall|j: int| 0 <= j < s.len() && #[trigger] s[j] == ':' implies j == k by {
            if j < k {
                assert(s[j] == c[j]);
                assert(is_digit(c[j]));
            } else if j > k {
                assert(s[j] == p[j - k - 1]);
                assert(is_digit(p[j - k - 1]));
            }
        }
    }
    assert(colon_pos(s) == k);
    assert(s.take(k) =~= c);
    assert(s.skip(k + 1) =~= p);
    assert(!is_any_cid(c)) by {
        assert(is_digit(c[0]));
    }
}

/// A URI without exactly one `://` is refused as invalid, and a scheme other
/// than `unix` or `vsock` is refused as unknown.
pub proof fn lemma_refused_uri(uri: Seq<char>, force_abstract: bool)
    ensures
        !has_one_sep(trimmed(uri)) ==> uri_address(uri, force_abstract) == Err::<
            AddressModel,
            AddressError,
        >(AddressError::InvalidUri),
        has_one_sep(trimmed(uri)) && lowered(scheme_part(trimmed(uri))) != unix_scheme()
            && lowered(scheme_part(trimmed(uri))) != vsock_scheme() ==> uri_address(
            uri,
            force_abstract,
        ) == Err::<AddressModel, AddressError>(AddressError::InvalidScheme),
{
}

/// Relies on `libc::VMADDR_CID_ANY`, the context id that stands for any context.
#[verifier::external_body]
fn vmaddr_cid_any() -> (r: u32)
    ensures
        r == CID_ANY,
{
    libc::VMADDR_CID_ANY
}

} // verus!
