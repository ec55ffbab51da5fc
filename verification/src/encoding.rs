use vstd::prelude::*;

use crate::text::eq_upper;
use crate::text::str_eq_upper;
use crate::text::upper_char;

verus! {

/// The text decoders a sidecar encoding hint can select for DBF
/// attributes.
#[derive(Clone, Copy, Debug, PartialEq, Eq, Structural)]
pub enum EncodingChoice {
    Utf8,
    ShiftJis,
    Gbk,
    EucKr,
    Big5,
    Ibm866,
    Windows874,
    Windows1255,
    Windows1256,
    Windows1250,
    Windows1251,
    Windows1252,
    Windows1254,
    Windows1253,
    Iso8859Part2,
    Iso8859Part3,
    Iso8859Part4,
    Iso8859Part5,
    Iso8859Part6,
    Iso8859Part7,
    Iso8859Part8,
    Iso8859Part10,
    Iso8859Part13,
    Iso8859Part14,
    Iso8859Part15,
    Iso8859Part16,
}

/// The canonical name of each decoder, as the decoding library spells it.
pub open spec fn encoding_name(e: EncodingChoice) -> Seq<char> {
    match e {
        EncodingChoice::Utf8 => "UTF-8"@,
        EncodingChoice::ShiftJis => "Shift_JIS"@,
        EncodingChoice::Gbk => "GBK"@,
        EncodingChoice::EucKr => "EUC-KR"@,
        EncodingChoice::Big5 => "Big5"@,
        EncodingChoice::Ibm866 => "IBM866"@,
        EncodingChoice::Windows874 => "windows-874"@,
        EncodingChoice::Windows1255 => "windows-1255"@,
        EncodingChoice::Windows1256 => "windows-1256"@,
        EncodingChoice::Windows1250 => "windows-1250"@,
        EncodingChoice::Windows1251 => "windows-1251"@,
        EncodingChoice::Windows1252 => "windows-1252"@,
        EncodingChoice::Windows1254 => "windows-1254"@,
        EncodingChoice::Windows1253 => "windows-1253"@,
        EncodingChoice::Iso8859Part2 => "ISO-8859-2"@,
        EncodingChoice::Iso8859Part3 => "ISO-8859-3"@,
        EncodingChoice::Iso8859Part4 => "ISO-8859-4"@,
        EncodingChoice::Iso8859Part5 => "ISO-8859-5"@,
        EncodingChoice::Iso8859Part6 => "ISO-8859-6"@,
        EncodingChoice::Iso8859Part7 => "ISO-8859-7"@,
        EncodingChoice::Iso8859Part8 => "ISO-8859-8"@,
        EncodingChoice::Iso8859Part10 => "ISO-8859-10"@,
        EncodingChoice::Iso8859Part13 => "ISO-8859-13"@,
        EncodingChoice::Iso8859Part14 => "ISO-8859-14"@,
        EncodingChoice::Iso8859Part15 => "ISO-8859-15"@,
        EncodingChoice::Iso8859Part16 => "ISO-8859-16"@,
    }
}

/// A Unicode whitespace character, the set `str::trim` removes.
pub open spec fn is_space(c: char) -> bool {
    c == ' ' || c == '\t' || c == '\n' || c == '\r' || c == '\u{000B}' || c == '\u{000C}'
        || c == '\u{0085}' || c == '\u{00A0}' || c == '\u{1680}' || ('\u{2000}' <= c && c
        <= '\u{200A}') || c == '\u{2028}' || c == '\u{2029}' || c == '\u{202F}' || c
        == '\u{205F}' || c == '\u{3000}'
}

/// The label with leading whitespace removed.
pub open spec fn trim_front(s: Seq<char>) -> Seq<char>
    decreases s.len(),
{
    if s.len() > 0 && is_space(s[0]) {
        trim_front(s.drop_first())
    } else {
        s
    }
}

/// The label with trailing whitespace removed.
pub open spec fn trim_back(s: Seq<char>) -> Seq<char>
    decreases s.len(),
{
    if s.len() > 0 && is_space(s.last()) {
        trim_back(s.drop_last())
    } else {
        s
    }
}

/// The label with leading byte-order marks removed.
pub open spec fn strip_bom(s: Seq<char>) -> Seq<char>
    decreases s.len(),
{
    if s.len() > 0 && s[0] == '\u{FEFF}' {
        strip_bom(s.drop_first())
    } else {
        s
    }
}

/// The hint label as the table reads it: whitespace trimmed off both ends,
/// then any leading byte-order marks dropped.
pub open spec fn stripped(s: Seq<char>) -> Seq<char> {
    strip_bom(trim_back(trim_front(s)))
}

/// The decoder a cleaned-up, upper-cased hint label selects. The label
/// forms are those seen in the wild: decimal codepage numbers, `CP`-prefixed
/// numbers, mnemonic names, and the ISO-8859 family under several
/// spellings. There is no normative list; an unknown label selects nothing
/// and the caller falls back to the default decoder.
pub open spec fn cpg_encoding(u: Seq<char>) -> Option<EncodingChoice> {
    if eq_upper(u, "UTF-8"@) || eq_upper(u, "65001"@) {
        Some(EncodingChoice::Utf8)
    } else if eq_upper(u, "932"@) || eq_upper(u, "CP932"@) || eq_upper(u, "SHIFT_JIS"@) || eq_upper(u, "SJIS"@) {
        Some(EncodingChoice::ShiftJis)
    } else if eq_upper(u, "936"@) || eq_upper(u, "CP936"@) || eq_upper(u, "GBK"@) {
        Some(EncodingChoice::Gbk)
    } else if eq_upper(u, "949"@) || eq_upper(u, "CP949"@) || eq_upper(u, "EUC-KR"@) {
        Some(EncodingChoice::EucKr)
    } else if eq_upper(u, "BIG5"@) || eq_upper(u, "BIG-5"@) {
        Some(EncodingChoice::Big5)
    } else if eq_upper(u, "866"@) || eq_upper(u, "CP866"@) {
        Some(EncodingChoice::Ibm866)
    } else if eq_upper(u, "874"@) || eq_upper(u, "CP874"@) {
        Some(EncodingChoice::Windows874)
    } else if eq_upper(u, "1255"@) || eq_upper(u, "CP1255"@) {
        Some(EncodingChoice::Windows1255)
    } else if eq_upper(u, "1256"@) || eq_upper(u, "CP1256"@) {
        Some(EncodingChoice::Windows1256)
    } else if eq_upper(u, "1250"@) || eq_upper(u, "CP1250"@) {
        Some(EncodingChoice::Windows1250)
    } else if eq_upper(u, "1251"@) || eq_upper(u, "CP1251"@) || eq_upper(u, "ANSI 1251"@) {
        Some(EncodingChoice::Windows1251)
    } else if eq_upper(u, "1252"@) || eq_upper(u, "CP1252"@) {
        Some(EncodingChoice::Windows1252)
    } else if eq_upper(u, "1254"@) || eq_upper(u, "CP1254"@) {
        Some(EncodingChoice::Windows1254)
    } else if eq_upper(u, "1253"@) || eq_upper(u, "CP1253"@) {
        Some(EncodingChoice::Windows1253)
    } else if eq_upper(u, "ISO-8859-1"@) || eq_upper(u, "8859-1"@) || eq_upper(u, "88591"@) {
        Some(EncodingChoice::Windows1252)
    } else if eq_upper(u, "ISO-8859-2"@) || eq_upper(u, "8859-2"@) || eq_upper(u, "88592"@) {
        Some(EncodingChoice::Iso8859Part2)
    } else if eq_upper(u, "ISO-8859-3"@) || eq_upper(u, "8859-3"@) || eq_upper(u, "88593"@) {
        Some(EncodingChoice::Iso8859Part3)
    } else if eq_upper(u, "ISO-8859-4"@) || eq_upper(u, "8859-4"@) || eq_upper(u, "88594"@) {
        Some(EncodingChoice::Iso8859Part4)
    } else if eq_upper(u, "ISO-8859-5"@) || eq_upper(u, "8859-5"@) || eq_upper(u, "88595"@) {
        Some(EncodingChoice::Iso8859Part5)
    } else if eq_upper(u, "ISO-8859-6"@) || eq_upper(u, "8859-6"@) || eq_upper(u, "88596"@) {
        Some(EncodingChoice::Iso8859Part6)
    } else if eq_upper(u, "ISO-8859-7"@) || eq_upper(u, "8859-7"@) || eq_upper(u, "88597"@) {
        Some(EncodingChoice::Iso8859Part7)
    } else if eq_upper(u, "ISO-8859-8"@) || eq_upper(u, "8859-8"@) || eq_upper(u, "88598"@) {
        Some(EncodingChoice::Iso8859Part8)
    } else if eq_upper(u, "ISO-8859-9"@) || eq_upper(u, "8859-9"@) || eq_upper(u, "88599"@) {
        Some(EncodingChoice::Windows1254)
    } else if eq_upper(u, "ISO-8859-10"@) || eq_upper(u, "8859-10"@) || eq_upper(u, "885910"@) {
        Some(EncodingChoice::Iso8859Part10)
    } else if eq_upper(u, "ISO-8859-13"@) || eq_upper(u, "8859-13"@) || eq_upper(u, "885913"@) {
        Some(EncodingChoice::Iso8859Part13)
    } else if eq_upper(u, "ISO-8859-14"@) || eq_upper(u, "8859-14"@) || eq_upper(u, "885914"@) {
        Some(EncodingChoice::Iso8859Part14)
    } else if eq_upper(u, "ISO-8859-15"@) || eq_upper(u, "8859-15"@) || eq_upper(u, "885915"@) {
        Some(EncodingChoice::Iso8859Part15)
    } else if eq_upper(u, "ISO-8859-16"@) || eq_upper(u, "8859-16"@) || eq_upper(u, "885916"@) {
        Some(EncodingChoice::Iso8859Part16)
    } else {
        None
    }
}

proof fn lemma_trim_front_skip(s: Seq<char>, a: int)
    requires
        0 <= a <= s.len(),
        forall|j: int| 0 <= j < a ==> is_space(s[j]),
        a < s.len() ==> !is_space(s[a]),
    ensures
        trim_front(s) == s.skip(a),
    decreases a,
{
    if a == 0 {
        assert(s.skip(0) =~= s);
    } else {
        lemma_trim_front_skip(s.drop_first(), a - 1);
        assert(s.drop_first().skip(a - 1) =~= s.skip(a));
    }
}

proof fn lemma_trim_back_take(s: Seq<char>, b: int)
    requires
        0 <= b <= s.len(),
        forall|j: int| b <= j < s.len() ==> is_space(s[j]),
        b > 0 ==> !is_space(s[b - 1]),
    ensures
        trim_back(s) == s.take(b),
    decreases s.len() - b,
{
    if b == s.len() {
        assert(s.take(b) =~= s);
    } else {
        lemma_trim_back_take(s.drop_last(), b);
        assert(s.drop_last().take(b) =~= s.take(b));
    }
}

proof fn lemma_strip_bom_skip(s: Seq<char>, a: int)
    requires
        0 <= a <= s.len(),
        forall|j: int| 0 <= j < a ==> s[j] == '\u{FEFF}',
        a < s.len() ==> s[a] != '\u{FEFF}',
    ensures
        strip_bom(s) == s.skip(a),
    decreases a,
{
    if a == 0 {
        assert(s.skip(0) =~= s);
    } else {
        lemma_strip_bom_skip(s.drop_first(), a - 1);
        assert(s.drop_first().skip(a - 1) =~= s.skip(a));
    }
}

/// Tells a Unicode whitespace character.
fn is_space_exec(c: char) -> (r: bool)
    ensures
        r == is_space(c),
{
    c == ' ' || c == '\t' || c == '\n' || c == '\r' || c == '\u{000B}' || c == '\u{000C}'
        || c == '\u{0085}' || c == '\u{00A0}' || c == '\u{1680}' || ('\u{2000}' <= c && c
        <= '\u{200A}') || c == '\u{2028}' || c == '\u{2029}' || c == '\u{202F}' || c
        == '\u{205F}' || c == '\u{3000}'
}

/// One selected decoder together with its canonical name.
pub struct InferredEncoding {
    pub encoding: EncodingChoice,
    pub name: String,
}

impl EncodingChoice {
    /// The canonical name of this decoder.
    pub fn name(&self) -> (r: String)
        ensures
            r@ == encoding_name(*self),
    {
        match self {
            EncodingChoice::Utf8 => String::from_str("UTF-8"),
            EncodingChoice::ShiftJis => String::from_str("Shift_JIS"),
            EncodingChoice::Gbk => String::from_str("GBK"),
            EncodingChoice::EucKr => String::from_str("EUC-KR"),
            EncodingChoice::Big5 => String::from_str("Big5"),
            EncodingChoice::Ibm866 => String::from_str("IBM866"),
            EncodingChoice::Windows874 => String::from_str("windows-874"),
            EncodingChoice::Windows1255 => String::from_str("windows-1255"),
            EncodingChoice::Windows1256 => String::from_str("windows-1256"),
            EncodingChoice::Windows1250 => String::from_str("windows-1250"),
            EncodingChoice::Windows1251 => String::from_str("windows-1251"),
            EncodingChoice::Windows1252 => String::from_str("windows-1252"),
            EncodingChoice::Windows1254 => String::from_str("windows-1254"),
            EncodingChoice::Windows1253 => String::from_str("windows-1253"),
            EncodingChoice::Iso8859Part2 => String::from_str("ISO-8859-2"),
            EncodingChoice::Iso8859Part3 => String::from_str("ISO-8859-3"),
            EncodingChoice::Iso8859Part4 => String::from_str("ISO-8859-4"),
            EncodingChoice::Iso8859Part5 => String::from_str("ISO-8859-5"),
            EncodingChoice::Iso8859Part6 => String::from_str("ISO-8859-6"),
            EncodingChoice::Iso8859Part7 => String::from_str("ISO-8859-7"),
            EncodingChoice::Iso8859Part8 => String::from_str("ISO-8859-8"),
            EncodingChoice::Iso8859Part10 => String::from_str("ISO-8859-10"),
            EncodingChoice::Iso8859Part13 => String::from_str("ISO-8859-13"),
            EncodingChoice::Iso8859Part14 => String::from_str("ISO-8859-14"),
            EncodingChoice::Iso8859Part15 => String::from_str("ISO-8859-15"),
            EncodingChoice::Iso8859Part16 => String::from_str("ISO-8859-16"),
        }
    }
}

/// Reads a sidecar encoding hint: trims it, strips any byte-order mark,
/// and looks the label up ASCII-case-insensitively. `None` defers to the
/// decoding library's own default; an unknown label never aborts a scan.
pub fn parse_encoding_label(label: &str) -> (r: Option<InferredEncoding>)
    ensures
        r is Some <==> cpg_encoding(stripped(label@)) is Some,
        r matches Some(ie) ==> Some(ie.encoding) == cpg_encoding(stripped(label@)) && ie.name@
            == encoding_name(ie.encoding),
{
    let n = label.unicode_len();
    let mut a: usize = 0;
    while a < n && is_space_exec(label.get_char(a))
        invariant
            0 <= a <= n,
            n == label@.len(),
            forall|j: int| 0 <= j < a ==> is_space(label@[j]),
        decreases n - a,
    {
        a = a + 1;
    }
    let mut b: usize = n;
    while b > a && is_space_exec(label.get_char(b - 1))
        invariant
            a <= b <= n,
            n == label@.len(),
            forall|j: int| b <= j < n ==> is_space(label@[j]),
        decreases b,
    {
        b = b - 1;
    }
    let ghost t1 = trim_front(label@);
    let ghost t2 = trim_back(t1);
    proof {
        lemma_trim_front_skip(label@, a as int);
        assert(forall|j: int| 0 <= j < t1.len() ==> t1[j] == label@[j + a]);
        lemma_trim_back_take(t1, b - a);
        assert(t2 =~= label@.subrange(a as int, b as int));
    }
    let mut c: usize = a;
    while c < b && label.get_char(c) == '\u{FEFF}'
        invariant
            a <= c <= b <= n,
            n == label@.len(),
            forall|j: int| a <= j < c ==> label@[j] == '\u{FEFF}',
        decreases b - c,
    {
        c = c + 1;
    }
    proof {
        assert(forall|j: int| 0 <= j < t2.len() ==> t2[j] == label@[j + a]);
        lemma_strip_bom_skip(t2, c - a);
        assert(stripped(label@) =~= label@.subrange(c as int, b as int));
    }
    let core = label.substring_char(c, b);
    proof {
        assert(core@ == stripped(label@));
    }
    let choice: Option<EncodingChoice> =
    if str_eq_upper(core, "UTF-8") || str_eq_upper(core, "65001") {
            Some(EncodingChoice::Utf8)
        } else if str_eq_upper(core, "932") || str_eq_upper(core, "CP932") || str_eq_upper(core, "SHIFT_JIS") || str_eq_upper(core, "SJIS") {
            Some(EncodingChoice::ShiftJis)
        } else if str_eq_upper(core, "936") || str_eq_upper(core, "CP936") || str_eq_upper(core, "GBK") {
            Some(EncodingChoice::Gbk)
        } else if str_eq_upper(core, "949") || str_eq_upper(core, "CP949") || str_eq_upper(core, "EUC-KR") {
            Some(EncodingChoice::EucKr)
        } else if str_eq_upper(core, "BIG5") || str_eq_upper(core, "BIG-5") {
            Some(EncodingChoice::Big5)
        } else if str_eq_upper(core, "866") || str_eq_upper(core, "CP866") {
            Some(EncodingChoice::Ibm866)
        } else if str_eq_upper(core, "874") || str_eq_upper(core, "CP874") {
            Some(EncodingChoice::Windows874)
        } else if str_eq_upper(core, "1255") || str_eq_upper(core, "CP1255") {
            Some(EncodingChoice::Windows1255)
        } else if str_eq_upper(core, "1256") || str_eq_upper(core, "CP1256") {
            Some(EncodingChoice::Windows1256)
        } else if str_eq_upper(core, "1250") || str_eq_upper(core, "CP1250") {
            Some(EncodingChoice::Windows1250)
        } else if str_eq_upper(core, "1251") || str_eq_upper(core, "CP1251") || str_eq_upper(core, "ANSI 1251") {
            Some(EncodingChoice::Windows1251)
        } else if str_eq_upper(core, "1252") || str_eq_upper(core, "CP1252") {
            Some(EncodingChoice::Windows1252)
        } else if str_eq_upper(core, "1254") || str_eq_upper(core, "CP1254") {
            Some(EncodingChoice::Windows1254)
        } else if str_eq_upper(core, "1253") || str_eq_upper(core, "CP1253") {
            Some(EncodingChoice::Windows1253)
        } else if str_eq_upper(core, "ISO-8859-1") || str_eq_upper(core, "8859-1") || str_eq_upper(core, "88591") {
            Some(EncodingChoice::Windows1252)
        } else if str_eq_upper(core, "ISO-8859-2") || str_eq_upper(core, "8859-2") || str_eq_upper(core, "88592") {
            Some(EncodingChoice::Iso8859Part2)
        } else if str_eq_upper(core, "ISO-8859-3") || str_eq_upper(core, "8859-3") || str_eq_upper(core, "88593") {
            Some(EncodingChoice::Iso8859Part3)
        } else if str_eq_upper(core, "ISO-8859-4") || str_eq_upper(core, "8859-4") || str_eq_upper(core, "88594") {
            Some(EncodingChoice::Iso8859Part4)
        } else if str_eq_upper(core, "ISO-8859-5") || str_eq_upper(core, "8859-5") || str_eq_upper(core, "88595") {
            Some(EncodingChoice::Iso8859Part5)
        } else if str_eq_upper(core, "ISO-8859-6") || str_eq_upper(core, "8859-6") || str_eq_upper(core, "88596") {
            Some(EncodingChoice::Iso8859Part6)
        } else if str_eq_upper(core, "ISO-8859-7") || str_eq_upper(core, "8859-7") || str_eq_upper(core, "88597") {
            Some(EncodingChoice::Iso8859Part7)
        } else if str_eq_upper(core, "ISO-8859-8") || str_eq_upper(core, "8859-8") || str_eq_upper(core, "88598") {
            Some(EncodingChoice::Iso8859Part8)
        } else if str_eq_upper(core, "ISO-8859-9") || str_eq_upper(core, "8859-9") || str_eq_upper(core, "88599") {
            Some(EncodingChoice::Windows1254)
        } else if str_eq_upper(core, "ISO-8859-10") || str_eq_upper(core, "8859-10") || str_eq_upper(core, "885910") {
            Some(EncodingChoice::Iso8859Part10)
        } else if str_eq_upper(core, "ISO-8859-13") || str_eq_upper(core, "8859-13") || str_eq_upper(core, "885913") {
            Some(EncodingChoice::Iso8859Part13)
        } else if str_eq_upper(core, "ISO-8859-14") || str_eq_upper(core, "8859-14") || str_eq_upper(core, "885914") {
            Some(EncodingChoice::Iso8859Part14)
        } else if str_eq_upper(core, "ISO-8859-15") || str_eq_upper(core, "8859-15") || str_eq_upper(core, "885915") {
            Some(EncodingChoice::Iso8859Part15)
        } else if str_eq_upper(core, "ISO-8859-16") || str_eq_upper(core, "8859-16") || str_eq_upper(core, "885916") {
            Some(EncodingChoice::Iso8859Part16)
        } else {
            None
        };
    match choice {
        Some(enc) => Some(InferredEncoding { encoding: enc, name: enc.name() }),
        None => None,
    }
}

} // verus!
