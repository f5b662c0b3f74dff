use vstd::prelude::*;
use crate::text::chars_of;
use crate::text::eq_chars;
use crate::text::string_of;

verus! {

/// A request to run a shell command, correlated by an opaque callback token.
pub struct CommandRequest {
    pub command: String,
    pub callback_id: String,
}

/// A request to fetch a URL through the proxy, correlated by an opaque
/// callback token.
pub struct ProxyRequest {
    pub url: String,
    pub callback_id: String,
}

/// The closed set of inbound envelope variants.
pub enum IpcMessage {
    Command(CommandRequest),
    Proxy(ProxyRequest),
}

/// Why an inbound text failed to decode: not a well-formed envelope document,
/// a discriminant that is absent or not one of the known tags, or a known tag
/// whose required fields are missing.
#[derive(Clone, Copy, PartialEq, Eq, Structural, Debug)]
pub enum DecodeError {
    Malformed,
    UnknownTag,
    MissingField,
}

/// The mathematical value of a decoded envelope.
pub enum EnvelopeModel {
    Command { command: Seq<char>, callback_id: Seq<char> },
    Proxy { url: Seq<char>, callback_id: Seq<char> },
}

impl View for IpcMessage {
    type V = EnvelopeModel;

    open spec fn view(&self) -> EnvelopeModel {
        match self {
            IpcMessage::Command(c) => EnvelopeModel::Command {
                command: c.command@,
                callback_id: c.callback_id@,
            },
            IpcMessage::Proxy(p) => EnvelopeModel::Proxy {
                url: p.url@,
                callback_id: p.callback_id@,
            },
        }
    }
}

/// Whitespace accepted between the tokens of an envelope document.
pub open spec fn is_ws(c: char) -> bool {
    c == ' ' || c == '\t' || c == '\n' || c == '\r'
}

/// The character denoted by a single-character escape sequence in a quoted
/// string, if the escape is one the envelope grammar accepts.
pub open spec fn unescaped(c: char) -> Option<char> {
    if c == '"' {
        Some('"')
    } else if c == '\\' {
        Some('\\')
    } else if c == '/' {
        Some('/')
    } else if c == 'b' {
        Some('\u{8}')
    } else if c == 'f' {
        Some('\u{c}')
    } else if c == 'n' {
        Some('\n')
    } else if c == 'r' {
        Some('\r')
    } else if c == 't' {
        Some('\t')
    } else {
        None
    }
}

/// The scanner's position inside an envelope document, together with the
/// members read so far and the partial key or value being read.
pub enum ScanState {
    BeforeObject,
    ExpectFirstKey { ms: Seq<(Seq<char>, Seq<char>)> },
    InKey { ms: Seq<(Seq<char>, Seq<char>)>, key: Seq<char> },
    KeyEscape { ms: Seq<(Seq<char>, Seq<char>)>, key: Seq<char> },
    AfterKey { ms: Seq<(Seq<char>, Seq<char>)>, key: Seq<char> },
    BeforeValue { ms: Seq<(Seq<char>, Seq<char>)>, key: Seq<char> },
    InValue { ms: Seq<(Seq<char>, Seq<char>)>, key: Seq<char>, val: Seq<char> },
    ValueEscape { ms: Seq<(Seq<char>, Seq<char>)>, key: Seq<char>, val: Seq<char> },
    AfterValue { ms: Seq<(Seq<char>, Seq<char>)> },
    ExpectKey { ms: Seq<(Seq<char>, Seq<char>)> },
    Done { ms: Seq<(Seq<char>, Seq<char>)> },
    Failed,
}

/// One step of the envelope grammar: an object of string-valued members,
/// with standard whitespace and single-character string escapes.
pub open spec fn scan_step(st: ScanState, c: char) -> ScanState {
    match st {
        ScanState::BeforeObject => if is_ws(c) {
            st
        } else if c == '{' {
            ScanState::ExpectFirstKey { ms: Seq::empty() }
        } else {
            ScanState::Failed
        },
        ScanState::ExpectFirstKey { ms } => if is_ws(c) {
            st
        } else if c == '"' {
            ScanState::InKey { ms, key: Seq::empty() }
        } else if c == '}' {
            ScanState::Done { ms }
        } else {
            ScanState::Failed
        },
        ScanState::InKey { ms, key } => if c == '"' {
            ScanState::AfterKey { ms, key }
        } else if c == '\\' {
            ScanState::KeyEscape { ms, key }
        } else if (c as u32) < 32 {
            ScanState::Failed
        } else {
            ScanState::InKey { ms, key: key.push(c) }
        },
        ScanState::KeyEscape { ms, key } => match unescaped(c) {
            Some(d) => ScanState::InKey { ms, key: key.push(d) },
            None => ScanState::Failed,
        },
        ScanState::AfterKey { ms, key } => if is_ws(c) {
            st
        } else if c == ':' {
            ScanState::BeforeValue { ms, key }
        } else {
            ScanState::Failed
        },
        ScanState::BeforeValue { ms, key } => if is_ws(c) {
            st
        } else if c == '"' {
            ScanState::InValue { ms, key, val: Seq::empty() }
        } else {
            ScanState::Failed
        },
        ScanState::InValue { ms, key, val } => if c == '"' {
            ScanState::AfterValue { ms: ms.push((key, val)) }
        } else if c == '\\' {
            ScanState::ValueEscape { ms, key, val }
        } else if (c as u32) < 32 {
            ScanState::Failed
        } else {
            ScanState::InValue { ms, key, val: val.push(c) }
        },
        ScanState::ValueEscape { ms, key, val } => match unescaped(c) {
            Some(d) => ScanState::InValue { ms, key, val: val.push(d) },
            None => ScanState::Failed,
        },
        ScanState::AfterValue { ms } => if is_ws(c) {
            st
        } else if c == ',' {
            ScanState::ExpectKey { ms }
        } else if c == '}' {
            ScanState::Done { ms }
        } else {
            ScanState::Failed
        },
        ScanState::ExpectKey { ms } => if is_ws(c) {
            st
        } else if c == '"' {
            ScanState::InKey { ms, key: Seq::empty() }
        } else {
            ScanState::Failed
        },
        ScanState::Done { ms } => if is_ws(c) {
            ScanState::Done { ms }
        } else {
            ScanState::Failed
        },
        ScanState::Failed => ScanState::Failed,
    }
}

/// Runs the scanner over a whole character sequence.
pub open spec fn scan(st: ScanState, s: Seq<char>) -> ScanState
    decreases s.len(),
{
    if s.len() == 0 {
        st
    } else {
        scan(scan_step(st, s[0]), s.skip(1))
    }
}

proof fn lemma_scan_snoc(st: ScanState, a: Seq<char>, c: char)
    ensures
        scan(st, a.push(c)) == scan_step(scan(st, a), c),
    decreases a.len(),
{
    reveal_with_fuel(scan, 3);
    if a.len() == 0 {
        assert(a.push(c)[0] == c);
        assert(a.push(c).skip(1) =~= Seq::<char>::empty());
    } else {
        assert(a.push(c)[0] == a[0]);
        assert(a.push(c).skip(1) =~= a.skip(1).push(c));
        lemma_scan_snoc(scan_step(st, a[0]), a.skip(1), c);
    }
}

/// The member list of a well-formed envelope document, in document order;
/// `None` when the text is not an object of string-valued members.
pub open spec fn members_of(s: Seq<char>) -> Option<Seq<(Seq<char>, Seq<char>)>> {
    match scan(ScanState::BeforeObject, s) {
        ScanState::Done { ms } => Some(ms),
        _ => None,
    }
}

/// The value of the first member with key `k`, if any.
pub open spec fn lookup(ms: Seq<(Seq<char>, Seq<char>)>, k: Seq<char>) -> Option<Seq<char>>
    decreases ms.len(),
{
    if ms.len() == 0 {
        None
    } else if ms[0].0 == k {
        Some(ms[0].1)
    } else {
        lookup(ms.skip(1), k)
    }
}

/// The envelope denoted by a member list: the `type` member discriminates,
/// and the variant's required fields must both be present.
pub open spec fn decoded(ms: Seq<(Seq<char>, Seq<char>)>) -> Result<EnvelopeModel, DecodeError> {
    match lookup(ms, "type"@) {
        None => Err(DecodeError::UnknownTag),
        Some(tag) => if tag == "Command"@ {
            match (lookup(ms, "command"@), lookup(ms, "callback_id"@)) {
                (Some(command), Some(callback_id)) => Ok(
                    EnvelopeModel::Command { command, callback_id },
                ),
                _ => Err(DecodeError::MissingField),
            }
        } else if tag == "Proxy"@ {
            match (lookup(ms, "url"@), lookup(ms, "callback_id"@)) {
                (Some(url), Some(callback_id)) => Ok(EnvelopeModel::Proxy { url, callback_id }),
                _ => Err(DecodeError::MissingField),
            }
        } else {
            Err(DecodeError::UnknownTag)
        },
    }
}

/// What decoding an inbound text yields: a total, deterministic function of
/// the characters alone.
pub open spec fn spec_decode(s: Seq<char>) -> Result<EnvelopeModel, DecodeError> {
    match members_of(s) {
        None => Err(DecodeError::Malformed),
        Some(ms) => decoded(ms),
    }
}

/// Decoding depends on nothing but the inbound characters: equal texts
/// decode to equal outcomes.
pub proof fn lemma_decode_deterministic(a: Seq<char>, b: Seq<char>)
    requires
        a == b,
    ensures
        spec_decode(a) == spec_decode(b),
{
}

/// The scanner's exec position, without the ghost member data.
#[derive(Clone, Copy)]
enum Phase {
    BeforeObject,
    ExpectFirstKey,
    InKey,
    KeyEscape,
    AfterKey,
    BeforeValue,
    InValue,
    ValueEscape,
    AfterValue,
    ExpectKey,
    Done,
    Failed,
}

/// The views of a sequence of character vectors.
pub open spec fn seqs_of(x: Seq<Vec<char>>) -> Seq<Seq<char>> {
    Seq::new(x.len(), |i: int| x[i]@)
}

/// Pairs the key views with the value views, index by index.
pub open spec fn pairs_of(ks: Seq<Seq<char>>, vs: Seq<Seq<char>>) -> Seq<(Seq<char>, Seq<char>)> {
    Seq::new(ks.len(), |i: int| (ks[i], vs[i]))
}

/// The abstract scanner state that a concrete scanner position stands for.
spec fn scan_abs(
    phase: Phase,
    ks: Seq<Seq<char>>,
    vs: Seq<Seq<char>>,
    key: Seq<char>,
    val: Seq<char>,
) -> ScanState {
    let ms = pairs_of(ks, vs);
    match phase {
        Phase::BeforeObject => ScanState::BeforeObject,
        Phase::ExpectFirstKey => ScanState::ExpectFirstKey { ms },
        Phase::InKey => ScanState::InKey { ms, key },
        Phase::KeyEscape => ScanState::KeyEscape { ms, key },
        Phase::AfterKey => ScanState::AfterKey { ms, key },
        Phase::BeforeValue => ScanState::BeforeValue { ms, key },
        Phase::InValue => ScanState::InValue { ms, key, val },
        Phase::ValueEscape => ScanState::ValueEscape { ms, key, val },
        Phase::AfterValue => ScanState::AfterValue { ms },
        Phase::ExpectKey => ScanState::ExpectKey { ms },
        Phase::Done => ScanState::Done { ms },
        Phase::Failed => ScanState::Failed,
    }
}

/// Decodes the single-character escape accepted after a backslash.
fn unescape_char(c: char) -> (r: Option<char>)
    ensures
        r == unescaped(c),
{
    if c == '"' {
        Some('"')
    } else if c == '\\' {
        Some('\\')
    } else if c == '/' {
        Some('/')
    } else if c == 'b' {
        Some('\u{8}')
    } else if c == 'f' {
        Some('\u{c}')
    } else if c == 't' {
        Some('\t')
    } else if c == 'n' {
        Some('\n')
    } else if c == 'r' {
        Some('\r')
    } else {
        None
    }
}

/// Runs the scanner over the whole text and hands back the member keys and
/// values exactly when the text is a well-formed envelope document.
fn scan_text(s: &Vec<char>) -> (r: Option<(Vec<Vec<char>>, Vec<Vec<char>>)>)
    ensures
        match r {
            Some(kv) => members_of(s@) == Some(pairs_of(seqs_of(kv.0@), seqs_of(kv.1@)))
                && kv.0@.len() == kv.1@.len(),
            None => members_of(s@) is None,
        },
{
    let mut phase = Phase::BeforeObject;
    let mut keys: Vec<Vec<char>> = Vec::new();
    let mut vals: Vec<Vec<char>> = Vec::new();
    let mut key: Vec<char> = Vec::new();
    let mut val: Vec<char> = Vec::new();
    let mut i: usize = 0;
    proof {
        assert(s@.take(0) =~= Seq::<char>::empty());
    }
    while i < s.len()
        invariant
            i <= s@.len(),
            keys@.len() == vals@.len(),
            scan(ScanState::BeforeObject, s@.take(i as int)) == scan_abs(
                phase,
                seqs_of(keys@),
                seqs_of(vals@),
                key@,
                val@,
            ),
        decreases s@.len() - i,
    {
        let c = s[i];
        proof {
            lemma_scan_snoc(ScanState::BeforeObject, s@.take(i as int), c);
            assert(s@.take(i as int).push(c) =~= s@.take(i + 1));
        }
        let ghost pre = scan_abs(phase, seqs_of(keys@), seqs_of(vals@), key@, val@);
        match phase {
            Phase::BeforeObject => {
                if c == ' ' || c == '\t' || c == '\n' || c == '\r' {
                } else if c == '{' {
                    phase = Phase::ExpectFirstKey;
                    keys = Vec::new();
                    vals = Vec::new();
                    proof {
                        assert(pairs_of(seqs_of(keys@), seqs_of(vals@)) =~= Seq::<(
                            Seq<char>,
                            Seq<char>,
                        )>::empty());
                    }
                } else {
                    phase = Phase::Failed;
                }
            },
            Phase::ExpectFirstKey => {
                if c == ' ' || c == '\t' || c == '\n' || c == '\r' {
                } else if c == '"' {
                    phase = Phase::InKey;
                    key = Vec::new();
                } else if c == '}' {
                    phase = Phase::Done;
                } else {
                    phase = Phase::Failed;
                }
            },
            Phase::InKey => {
                if c == '"' {
                    phase = Phase::AfterKey;
                } else if c == '\\' {
                    phase = Phase::KeyEscape;
                } else if (c as u32) < 32 {
                    phase = Phase::Failed;
                } else {
                    key.push(c);
                }
            },
            Phase::KeyEscape => {
                match unescape_char(c) {
                    Some(d) => {
                        key.push(d);
                        phase = Phase::InKey;
                    },
                    None => {
                        phase = Phase::Failed;
                    },
                }
            },
            Phase::AfterKey => {
                if c == ' ' || c == '\t' || c == '\n' || c == '\r' {
                } else if c == ':' {
                    phase = Phase::BeforeValue;
                } else {
                    phase = Phase::Failed;
                }
            },
            Phase::BeforeValue => {
                if c == ' ' || c == '\t' || c == '\n' || c == '\r' {
                } else if c == '"' {
                    phase = Phase::InValue;
                    val = Vec::new();
                } else {
                    phase = Phase::Failed;
                }
            },
            Phase::InValue => {
                if c == '"' {
                    let ghost old_ks = seqs_of(keys@);
                    let ghost old_vs = seqs_of(vals@);
                    let ghost old_key = key@;
                    let ghost old_val = val@;
                    keys.push(key);
                    vals.push(val);
                    key = Vec::new();
                    val = Vec::new();
                    phase = Phase::AfterValue;
                    proof {
                        assert(seqs_of(keys@) =~= old_ks.push(old_key));
                        assert(seqs_of(vals@) =~= old_vs.push(old_val));
                        assert(pairs_of(old_ks.push(old_key), old_vs.push(old_val)) =~= pairs_of(
                            old_ks,
                            old_vs,
                        ).push((old_key, old_val)));
                    }
                } else if c == '\\' {
                    phase = Phase::ValueEscape;
                } else if (c as u32) < 32 {
                    phase = Phase::Failed;
                } else {
                    val.push(c);
                }
            },
            Phase::ValueEscape => {
                match unescape_char(c) {
                    Some(d) => {
                        val.push(d);
                        phase = Phase::InValue;
                    },
                    None => {
                        phase = Phase::Failed;
                    },
                }
            },
            Phase::AfterValue => {
                if c == ' ' || c == '\t' || c == '\n' || c == '\r' {
                } else if c == ',' {
                    phase = Phase::ExpectKey;
                } else if c == '}' {
                    phase = Phase::Done;
                } else {
                    phase = Phase::Failed;
                }
            },
            Phase::ExpectKey => {
                if c == ' ' || c == '\t' || c == '\n' || c == '\r' {
                } else if c == '"' {
                    phase = Phase::InKey;
                    key = Vec::new();
                } else {
                    phase = Phase::Failed;
                }
            },
            Phase::Done => {
                if c == ' ' || c == '\t' || c == '\n' || c == '\r' {
                } else {
                    phase = Phase::Failed;
                }
            },
            Phase::Failed => {},
        }
        proof {
            assert(scan_abs(phase, seqs_of(keys@), seqs_of(vals@), key@, val@) == scan_step(
                pre,
                c,
            ));
        }
        i = i + 1;
    }
    proof {
        assert(s@.take(s@.len() as int) =~= s@);
    }
    match phase {
        Phase::Done => Some((keys, vals)),
        _ => None,
    }
}

/// Finds the first member whose key is `k`, as an index into the value list.
fn lookup_idx(keys: &Vec<Vec<char>>, vals: &Vec<Vec<char>>, k: &Vec<char>) -> (r: Option<usize>)
    requires
        keys@.len() == vals@.len(),
    ensures
        match r {
            Some(j) => j < vals@.len() && lookup(pairs_of(seqs_of(keys@), seqs_of(vals@)), k@)
                == Some(vals@[j as int]@),
            None => lookup(pairs_of(seqs_of(keys@), seqs_of(vals@)), k@) is None,
        },
{
    let ghost ms = pairs_of(seqs_of(keys@), seqs_of(vals@));
    let mut j: usize = 0;
    proof {
        assert(ms.skip(0) =~= ms);
    }
    while j < keys.len()
        invariant
            keys@.len() == vals@.len(),
            j <= keys@.len(),
            ms == pairs_of(seqs_of(keys@), seqs_of(vals@)),
            lookup(ms, k@) == lookup(ms.skip(j as int), k@),
        decreases keys@.len() - j,
    {
        if eq_chars(&keys[j], k) {
            proof {
                assert(ms.skip(j as int)[0] == ms[j as int]);
            }
            return Some(j);
        }
        proof {
            assert(ms.skip(j as int)[0] == ms[j as int]);
            assert(ms.skip(j as int).skip(1) =~= ms.skip(j as int + 1));
        }
        j = j + 1;
    }
    proof {
        assert(ms.skip(keys@.len() as int) =~= Seq::<(Seq<char>, Seq<char>)>::empty());
    }
    None
}

/// Decodes an inbound text into an envelope, exactly as `spec_decode` says:
/// total over all inputs, and failing with the error that names what was
/// wrong.
pub fn decode_message(text: &str) -> (r: Result<IpcMessage, DecodeError>)
    ensures
        match r {
            Ok(m) => spec_decode(text@) == Ok::<EnvelopeModel, DecodeError>(m@),
            Err(e) => spec_decode(text@) == Err::<EnvelopeModel, DecodeError>(e),
        },
{
    let cs = chars_of(text);
    let scanned = scan_text(&cs);
    match scanned {
        None => Err(DecodeError::Malformed),
        Some(kv) => {
            let (keys, vals) = kv;
            let ghost ms = pairs_of(seqs_of(keys@), seqs_of(vals@));
            let type_key = chars_of("type");
            match lookup_idx(&keys, &vals, &type_key) {
                None => Err(DecodeError::UnknownTag),
                Some(ti) => {
                    let command_lit = chars_of("Command");
                    let proxy_lit = chars_of("Proxy");
                    if eq_chars(&vals[ti], &command_lit) {
                        let command_key = chars_of("command");
                        let callback_key = chars_of("callback_id");
                        match (
                            lookup_idx(&keys, &vals, &command_key),
                            lookup_idx(&keys, &vals, &callback_key),
                        ) {
                            (Some(ci), Some(bi)) => Ok(
                                IpcMessage::Command(
                                    CommandRequest {
                                        command: string_of(&vals[ci]),
                                        callback_id: string_of(&vals[bi]),
                                    },
                                ),
                            ),
                            _ => Err(DecodeError::MissingField),
                        }
                    } else if eq_chars(&vals[ti], &proxy_lit) {
                        let url_key = chars_of("url");
                        let callback_key = chars_of("callback_id");
                        match (
                            lookup_idx(&keys, &vals, &url_key),
                            lookup_idx(&keys, &vals, &callback_key),
                        ) {
                            (Some(ui), Some(bi)) => Ok(
                                IpcMessage::Proxy(
                                    ProxyRequest {
                                        url: string_of(&vals[ui]),
                                        callback_id: string_of(&vals[bi]),
                                    },
                                ),
                            ),
                            _ => Err(DecodeError::MissingField),
                        }
                    } else {
                        Err(DecodeError::UnknownTag)
                    }
                },
            }
        },
    }
}

} // verus!
