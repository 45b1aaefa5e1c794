//! The resolver client's decisions: which names can be asked for, and what an
//! answer, a timeout or a failure means for the candidate.

use std::str::FromStr;
use trust_dns_client::rr::Name;
use vstd::prelude::*;

use crate::model::Ip;

verus! {

/// A domain name in the form the DNS client sends. Nothing of its inside is
/// visible here; it is made by `start_lookup` and handed to the client.
#[verifier::external_type_specification]
#[verifier::external_body]
pub struct ExName(Name);

/// What the DNS client library reads a text as: the name that
/// `Name::from_str` gives for it, or, where it refuses the text, its error
/// as text.
pub uninterp spec fn parsed_name(hostname: Seq<char>) -> Result<Name, Seq<char>>;

/// The most characters of one label that may reach the parser's Punycode
/// encoder. The encoder adds up a 32-bit counter without a check, which stays
/// below its limit for a label of this length.
pub const MAX_LABEL_WEIGHT: usize = 3853;

/// Whether the IDNA mapping drops a character.
pub open spec fn is_dropped(code: u32) -> bool {
    ||| code == 0xAD
    ||| code == 0x34F
    ||| 0x180B <= code <= 0x180D
    ||| 0x200B <= code <= 0x200D
    ||| code == 0x2060
    ||| code == 0x2064
    ||| 0xFE00 <= code <= 0xFE0F
    ||| code == 0xFEFF
    ||| 0x1BCA0 <= code <= 0x1BCA3
    ||| 0xE0100 <= code <= 0xE01EF
}

/// The most characters that one character of a label can become before the
/// encoder sees it, after the IDNA mapping and canonical decomposition: an
/// ASCII character stays one, a dropped one leaves nothing, two Arabic
/// ligatures give up to 18, the enclosed and squared CJK forms up to 7, and
/// any other character up to 4.
pub open spec fn weight_of(code: u32) -> nat {
    if code < 0x80 {
        1
    } else if is_dropped(code) {
        0
    } else if 0xFDFA <= code <= 0xFDFB {
        18
    } else if 0x321D <= code <= 0x33AF {
        7
    } else {
        4
    }
}

/// Where the parser stands in a text: the weight of the label it is reading,
/// how many characters of an escape it has read (the backslash and up to two
/// octal digits), and the value of those digits.
pub struct Scan {
    pub weight: nat,
    pub escape: nat,
    pub value: nat,
}

/// The parser at the start of a label.
pub open spec fn label_start() -> Scan {
    Scan { weight: 0, escape: 0, value: 0 }
}

/// Whether a character is an octal digit.
pub open spec fn is_octal(code: u32) -> bool {
    0x30 <= code <= 0x37
}

/// The parser after one more character, as it reads labels: a dot ends the
/// label; a backslash and three octal digits stand for the character of that
/// number, a backslash and any other character for that character; every
/// character of the label adds its weight. After an escape that breaks off
/// the parser gives up, so what this says from there on decides nothing.
pub open spec fn scan_step(scan: Scan, c: char) -> Scan {
    let code = c as u32;
    if scan.escape > 0 && is_octal(code) {
        let value = (scan.value * 8 + (code - 0x30)) as nat;
        if scan.escape == 3 {
            Scan { weight: scan.weight + weight_of(value as u32), escape: 0, value: 0 }
        } else {
            Scan { weight: scan.weight, escape: scan.escape + 1, value: value }
        }
    } else if scan.escape == 1 {
        Scan { weight: scan.weight + weight_of(code), escape: 0, value: 0 }
    } else if c == '.' {
        label_start()
    } else if c == '\\' {
        Scan { weight: scan.weight, escape: 1, value: 0 }
    } else {
        Scan { weight: scan.weight + weight_of(code), escape: 0, value: 0 }
    }
}

/// The parser after a text.
pub open spec fn scanned(text: Seq<char>) -> Scan
    decreases text.len(),
{
    if text.len() == 0 {
        label_start()
    } else {
        scan_step(scanned(text.drop_last()), text.last())
    }
}

/// Whether a text is handed to the parser: no label of it weighs more than
/// `MAX_LABEL_WEIGHT`. A label that the parser reads is at most 63 octets
/// long once encoded. It then holds a few hundred characters at most before
/// it is normalised, and no character weighs more than seven times what it
/// becomes, so such a label stays far below that weight: a text that is left
/// out is one that the parser cannot read.
pub open spec fn well_sized(text: Seq<char>) -> bool {
    forall|k: int|
        0 <= k <= text.len() ==> (#[trigger] scanned(text.take(k))).weight <= MAX_LABEL_WEIGHT
}

/// What `start_lookup` says of a text that is not handed to the parser.
pub open spec fn oversize_text() -> Seq<char> {
    "a label is too long to be read"@
}

/// Calls `trust_dns_client::rr::Name::from_str`, which reads the text as a
/// name (IDNA first, plain ASCII labels if that fails). The contract claims
/// that the outcome depends on the text alone, and names it; the error is
/// given as the debug text of the DNS library's own error. The Punycode
/// encoder behind the call adds up a 32-bit counter without a check, and a
/// label of several thousand characters can overflow it; `well_sized` keeps
/// every label that reaches the encoder at `MAX_LABEL_WEIGHT` characters or
/// fewer, where the counter stays below its limit.
#[verifier::external_body]
fn parse_name(hostname: &str) -> (parsed: Result<Name, String>)
    requires
        well_sized(hostname@),
    ensures
        match parsed {
            Ok(name) => parsed_name(hostname@) == Ok::<Name, Seq<char>>(name),
            Err(text) => parsed_name(hostname@) == Err::<Name, Seq<char>>(text@),
        },
{
    match Name::from_str(hostname) {
        Ok(name) => Ok(name),
        Err(err) => Err(format!("{:?}", err)),
    }
}

/// The class of a query.
#[derive(Clone, Copy, Debug, PartialEq, Eq, Structural)]
pub enum QueryClass {
    /// The Internet class, `IN`.
    Internet,
}

/// The type of record that a query asks for.
#[derive(Clone, Copy, Debug, PartialEq, Eq, Structural)]
pub enum QueryType {
    /// Host addresses, `A`.
    A,
}

/// What the resolver is to be asked: one query, for this name, class and
/// record type.
pub struct Question {
    pub name: Name,
    pub class: QueryClass,
    pub record_type: QueryType,
}

/// What the data of one answer record is, as far as a lookup cares.
#[derive(Clone, Copy, Debug, PartialEq, Eq, Structural)]
pub enum RecordData {
    /// An A record with the octets of its address.
    A(u8, u8, u8, u8),
    /// A record of any other type.
    Other,
}

/// How one query ended.
#[derive(Clone, Debug, PartialEq, Eq)]
pub enum QueryOutcome {
    /// A response came, with the data of each answer record in order
    /// (`None` for a record without data).
    Answers(Vec<Option<RecordData>>),
    /// No response came within the time allowed.
    Timeout,
    /// The query failed in another way; the text describes the failure.
    Failed(String),
}

/// Why a name has no addresses.
#[derive(Clone, Debug, PartialEq, Eq)]
pub enum Absence {
    /// The name could not be read as a domain name.
    MalformedName(String),
    /// The response held no A record.
    NoAnswer,
    /// The query timed out.
    Timeout,
    /// The query failed in another way.
    QueryError(String),
}

/// The addresses of the A records among the answers, in the order of the
/// answers.
pub open spec fn a_records(answers: Seq<Option<RecordData>>) -> Seq<Ip>
    decreases answers.len(),
{
    if answers.len() == 0 {
        Seq::empty()
    } else {
        let rest = a_records(answers.drop_last());
        match answers.last() {
            Some(RecordData::A(a, b, c, d)) => rest.push(Ip::V4(a, b, c, d)),
            _ => rest,
        }
    }
}

/// What a query's outcome means for the name asked for.
pub open spec fn classified(outcome: QueryOutcome) -> Result<Seq<Ip>, Absence> {
    match outcome {
        QueryOutcome::Answers(answers) => if a_records(answers@).len() > 0 {
            Ok(a_records(answers@))
        } else {
            Err(Absence::NoAnswer)
        },
        QueryOutcome::Timeout => Err(Absence::Timeout),
        QueryOutcome::Failed(text) => Err(Absence::QueryError(text)),
    }
}

/// Whether two lookup results say the same: the same addresses, or the same
/// absence.
pub open spec fn same_result(got: Result<Vec<Ip>, Absence>, expected: Result<Seq<Ip>, Absence>) -> bool {
    match (got, expected) {
        (Ok(ips), Ok(seq)) => ips@ == seq,
        (Err(a), Err(b)) => a == b,
        _ => false,
    }
}

/// The most characters that one character of a label can become before the
/// encoder sees it.
pub fn weight(code: u32) -> (weight: usize)
    ensures
        weight == weight_of(code),
        weight <= 18,
{
    if code < 0x80 {
        1
    } else if code == 0xAD || code == 0x34F || (0x180B <= code && code <= 0x180D) || (0x200B
        <= code && code <= 0x200D) || code == 0x2060 || code == 0x2064 || (0xFE00 <= code && code
        <= 0xFE0F) || code == 0xFEFF || (0x1BCA0 <= code && code <= 0x1BCA3) || (0xE0100 <= code
        && code <= 0xE01EF) {
        0
    } else if 0xFDFA <= code && code <= 0xFDFB {
        18
    } else if 0x321D <= code && code <= 0x33AF {
        7
    } else {
        4
    }
}

/// Whether a text is handed to the parser: whether no label of it weighs
/// more than `MAX_LABEL_WEIGHT`.
pub fn is_well_sized(hostname: &str) -> (fits: bool)
    ensures
        fits == well_sized(hostname@),
{
    let mut total: usize = 0;
    let mut escape: u8 = 0;
    let mut value: u32 = 0;
    for c in it: hostname.chars()
        invariant
            it.seq() == hostname@,
            scanned(hostname@.take(it.index() as int)) == (Scan {
                weight: total as nat,
                escape: escape as nat,
                value: value as nat,
            }),
            total <= MAX_LABEL_WEIGHT,
            escape <= 3,
            value < 64,
            escape < 3 ==> value < 8,
            forall|k: int|
                0 <= k <= it.index() ==> (#[trigger] scanned(hostname@.take(k))).weight
                    <= MAX_LABEL_WEIGHT,
    {
        assert(hostname@.take(it.index() + 1).drop_last() == hostname@.take(it.index() as int));
        assert(hostname@.take(it.index() + 1).last() == c);
        let code = c as u32;
        if escape > 0 && 0x30 <= code && code <= 0x37 {
            value = value * 8 + (code - 0x30);
            if escape == 3 {
                total = total + weight(value);
                escape = 0;
                value = 0;
            } else {
                escape = escape + 1;
            }
        } else if escape == 1 {
            total = total + weight(code);
            escape = 0;
            value = 0;
        } else if c == '.' {
            total = 0;
            escape = 0;
            value = 0;
        } else if c == '\\' {
            escape = 1;
            value = 0;
        } else {
            total = total + weight(code);
            escape = 0;
            value = 0;
        }
        if total > MAX_LABEL_WEIGHT {
            assert(scanned(hostname@.take(it.index() + 1)).weight > MAX_LABEL_WEIGHT);
            return false;
        }
    }
    true
}

/// Decides what the resolver is asked for a hostname: one question, for the
/// name that the text is read as, in the Internet class, for A records. A
/// text that the parser refuses is no domain name: it is absent, and the
/// resolver is not asked. Nor is it for a text with a label too heavy for the
/// parser, which the parser could not read either.
pub fn start_lookup(hostname: &str) -> (question: Result<Question, Absence>)
    ensures
        question is Ok <==> well_sized(hostname@) && parsed_name(hostname@) is Ok,
        question is Ok ==> parsed_name(hostname@) == Ok::<Name, Seq<char>>(question->Ok_0.name)
            && question->Ok_0.class == QueryClass::Internet
            && question->Ok_0.record_type == QueryType::A,
        question is Err ==> question->Err_0 is MalformedName,
        question is Err ==> question->Err_0->MalformedName_0@ == if well_sized(hostname@) {
            parsed_name(hostname@)->Err_0
        } else {
            oversize_text()
        },
{
    if !is_well_sized(hostname) {
        return Err(Absence::MalformedName("a label is too long to be read".to_owned()));
    }
    match parse_name(hostname) {
        Ok(name) => Ok(Question { name, class: QueryClass::Internet, record_type: QueryType::A }),
        Err(text) => Err(Absence::MalformedName(text)),
    }
}

/// Gathers the addresses of the A records among the answers.
pub fn collect_addresses(answers: &Vec<Option<RecordData>>) -> (ips: Vec<Ip>)
    ensures
        ips@ == a_records(answers@),
{
    let mut ips: Vec<Ip> = Vec::new();
    let mut i: usize = 0;
    while i < answers.len()
        invariant
            i <= answers.len(),
            ips@ == a_records(answers@.take(i as int)),
        decreases answers.len() - i,
    {
        assert(answers@.take(i + 1).drop_last() == answers@.take(i as int));
        match answers[i] {
            Some(RecordData::A(a, b, c, d)) => {
                ips.push(Ip::V4(a, b, c, d));
            },
            _ => {},
        }
        i += 1;
    }
    assert(answers@.take(answers.len() as int) == answers@);
    ips
}

/// Decides what a query's outcome means: the addresses of its A records if
/// there is at least one, else the reason why the name is absent. A response
/// without A records never counts as present.
pub fn finish_lookup(outcome: QueryOutcome) -> (result: Result<Vec<Ip>, Absence>)
    ensures
        same_result(result, classified(outcome)),
        result is Ok ==> result->Ok_0@.len() > 0,
{
    match outcome {
        QueryOutcome::Answers(answers) => {
            let ips = collect_addresses(&answers);
            if ips.len() > 0 {
                Ok(ips)
            } else {
                Err(Absence::NoAnswer)
            }
        },
        QueryOutcome::Timeout => Err(Absence::Timeout),
        QueryOutcome::Failed(text) => Err(Absence::QueryError(text)),
    }
}

impl Absence {
    /// Whether the absence is worth a diagnostic: a malformed name or an
    /// unexpected failure is, a timeout or an empty answer is not.
    pub fn is_reported(&self) -> (reported: bool)
        ensures
            reported == (self is MalformedName || self is QueryError),
    {
        match self {
            Absence::MalformedName(_) => true,
            Absence::QueryError(_) => true,
            Absence::NoAnswer => false,
            Absence::Timeout => false,
        }
    }
}

} // verus!
