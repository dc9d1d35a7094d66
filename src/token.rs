//! Attestation tokens: the kinds of token service, the settings of a KBS token getter,
//! and the message that hands an issued token and its key pair to the caller.

use vstd::prelude::*;
use vstd::string::*;
use crate::identity::str_equal;

verus! {

#[verifier::external_type_specification]
#[verifier::external_body]
pub struct ExJsonError(serde_json::Error);

/// The bytes serde_json writes for the string `s`: one JSON string literal, escaped.
pub uninterp spec fn json_string_of(s: Seq<char>) -> Seq<u8>;

/// Relies on serde_json::to_vec to write `s` as a JSON string literal. A string
/// serialises without fail, and writing into a `Vec` cannot fail either.
#[verifier::external_body]
fn json_string(s: &str) -> (r: Result<Vec<u8>, serde_json::Error>)
    ensures
        r is Ok,
        r matches Ok(b) ==> b@ == json_string_of(s@),
{
    serde_json::to_vec(s)
}

/// The kind of service a token is requested from.
#[derive(Clone, Copy, Debug, PartialEq, Eq, Structural)]
pub enum TokenType {
    Kbs,
    CoCoAS,
}

/// A token type name that is not known.
#[derive(Clone, Copy, Debug, PartialEq, Eq, Structural)]
pub struct UnknownTokenType;

impl TokenType {
    /// The token type named `name`: `kbs` or `coco_as`.
    pub fn from_name(name: &str) -> (r: Option<TokenType>)
        ensures
            r == Some(TokenType::Kbs) <==> name@ == "kbs"@,
            r == Some(TokenType::CoCoAS) <==> name@ == "coco_as"@,
            r is None <==> name@ != "kbs"@ && name@ != "coco_as"@,
    {
        proof {
            reveal_strlit("kbs");
            reveal_strlit("coco_as");
            assert("kbs"@.len() != "coco_as"@.len());
        }
        if str_equal(name, "kbs") {
            Some(TokenType::Kbs)
        } else if str_equal(name, "coco_as") {
            Some(TokenType::CoCoAS)
        } else {
            None
        }
    }
}

impl std::str::FromStr for TokenType {
    type Err = UnknownTokenType;

    fn from_str(s: &str) -> Result<TokenType, UnknownTokenType> {
        match TokenType::from_name(s) {
            Some(t) => Ok(t),
            None => Err(UnknownTokenType),
        }
    }
}

/// Where the key broker service is, and the certificate to trust it by.
#[derive(Clone, Debug, PartialEq, Eq)]
pub struct KbsConfig {
    pub url: String,
    pub cert: Option<String>,
}

/// The view of an optional string.
pub open spec fn opt_view(o: Option<String>) -> Option<Seq<char>> {
    match o {
        Some(s) => Some(s@),
        None => None,
    }
}

/// Fetches tokens from a key broker service.
pub struct KbsTokenGetter {
    kbs_host_url: String,
    cert: Option<String>,
}

impl View for KbsTokenGetter {
    /// The service URL and the certificate, if any.
    type V = (Seq<char>, Option<Seq<char>>);

    closed spec fn view(&self) -> (Seq<char>, Option<Seq<char>>) {
        (self.kbs_host_url@, opt_view(self.cert))
    }
}

impl Default for KbsTokenGetter {
    fn default() -> (r: KbsTokenGetter)
        ensures
            r@ == (Seq::<char>::empty(), None::<Seq<char>>),
    {
        KbsTokenGetter { kbs_host_url: String::new(), cert: None }
    }
}

impl KbsTokenGetter {
    /// A getter for the service that `config` names.
    pub fn new(config: &KbsConfig) -> (r: KbsTokenGetter)
        ensures
            r@ == (config.url@, opt_view(config.cert)),
    {
        let cert = match &config.cert {
            Some(c) => Some(c.clone()),
            None => None,
        };
        KbsTokenGetter { kbs_host_url: config.url.clone(), cert }
    }

    /// The URL of the service.
    pub fn kbs_host_url(&self) -> (u: &str)
        ensures
            u@ == self@.0,
    {
        self.kbs_host_url.as_str()
    }

    /// The certificate to trust the service by, if any.
    pub fn cert(&self) -> (c: Option<&str>)
        ensures
            c matches Some(s) ==> self@.1 == Some(s@),
            c is None <==> self@.1 is None,
    {
        match &self.cert {
            Some(s) => Some(s.as_str()),
            None => None,
        }
    }
}

/// The bytes of an ASCII text.
pub open spec fn ascii_bytes(s: Seq<char>) -> Seq<u8> {
    s.map_values(|c: char| c as u8)
}

/// The message carrying an issued token and its key pair, given each as a JSON string
/// literal: `{"token":<token>,"tee_keypair":<tee_keypair>}`.
pub open spec fn framed_token_message(token: Seq<u8>, tee_keypair: Seq<u8>) -> Seq<u8> {
    ascii_bytes("{\"token\":"@) + token + ascii_bytes(",\"tee_keypair\":"@) + tee_keypair + ascii_bytes("}"@)
}

/// The message for a token and a PEM key pair, as serde_json writes it.
pub open spec fn token_message_of(token: Seq<char>, tee_keypair: Seq<char>) -> Seq<u8> {
    framed_token_message(json_string_of(token), json_string_of(tee_keypair))
}

/// Appends the bytes of the characters of `s` to `out`.
fn push_text(out: &mut Vec<u8>, s: &str)
    ensures
        final(out)@ == old(out)@ + ascii_bytes(s@),
{
    let n = s.unicode_len();
    let mut i: usize = 0;
    while i < n
        invariant
            n == s@.len(),
            i <= n,
            out@ == old(out)@ + ascii_bytes(s@.take(i as int)),
        decreases n - i,
    {
        let c = s.get_char(i);
        out.push(c as u8);
        assert(ascii_bytes(s@.take(i + 1)) =~= ascii_bytes(s@.take(i as int)).push(c as u8));
        i = i + 1;
    }
    assert(s@.take(n as int) =~= s@);
}

/// Appends `b` to `out`.
fn push_bytes(out: &mut Vec<u8>, b: &Vec<u8>)
    ensures
        final(out)@ == old(out)@ + b@,
{
    let mut i: usize = 0;
    while i < b.len()
        invariant
            i <= b@.len(),
            out@ == old(out)@ + b@.take(i as int),
        decreases b@.len() - i,
    {
        out.push(b[i]);
        assert(b@.take(i + 1) =~= b@.take(i as int).push(b@[i as int]));
        i = i + 1;
    }
    assert(b@.take(b@.len() as int) =~= b@);
}

/// Frames a token and a key pair, each already written as a JSON string literal, into
/// the message object.
pub fn frame_token_message(token_json: &Vec<u8>, tee_keypair_json: &Vec<u8>) -> (r: Vec<u8>)
    ensures
        r@ == framed_token_message(token_json@, tee_keypair_json@),
{
    let mut out: Vec<u8> = Vec::new();
    push_text(&mut out, "{\"token\":");
    push_bytes(&mut out, token_json);
    push_text(&mut out, ",\"tee_keypair\":");
    push_bytes(&mut out, tee_keypair_json);
    push_text(&mut out, "}");
    assert(out@ =~= framed_token_message(token_json@, tee_keypair_json@));
    out
}

/// The JSON message that hands an issued token and its PEM key pair to the caller.
pub fn token_message(token: &str, tee_keypair: &str) -> (r: Vec<u8>)
    ensures
        r@ == token_message_of(token@, tee_keypair@),
{
    let t = match json_string(token) {
        Ok(b) => b,
        Err(_) => Vec::new(),
    };
    let k = match json_string(tee_keypair) {
        Ok(b) => b,
        Err(_) => Vec::new(),
    };
    frame_token_message(&t, &k)
}

} // verus!
