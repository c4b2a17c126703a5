//! The record store's text form: a self-delimiting encoding of the whole
//! collection, with a proved round trip. Text is length-prefixed, so any
//! characters may appear in the fields; a record carries its company name,
//! platform, resume flag and version, status, date and notes.

use vstd::prelude::*;
use crate::model::{Application, ApplicationV, Platform, PlatformV, Status};
use crate::date::{Date, date_chars, parse_date, render_date, parse_date_chars};
use crate::text::{
    spec_digit_char, is_digit_char, digit_value, digit_char, exec_is_digit_char, exec_digit_value,
    chars_string,
};

verus! {

// ---------------------------------------------------------------------------
// The encoding, as mathematics
// ---------------------------------------------------------------------------

/// A number's decimal digits, most significant first, no leading zeros.
pub open spec fn enc_num(n: int) -> Seq<char>
    decreases n,
{
    if n < 10 {
        seq![spec_digit_char(n)]
    } else {
        enc_num(n / 10).push(spec_digit_char(n % 10))
    }
}

/// A length-prefixed text: the length in decimal, a colon, the characters.
pub open spec fn enc_lp(s: Seq<char>) -> Seq<char> {
    enc_num(s.len() as int) + seq![':'] + s
}

/// A platform: its tag letter, and for the custom branch its text.
pub open spec fn enc_platform(p: PlatformV) -> Seq<char> {
    match p {
        PlatformV::LinkedIn => seq!['L'],
        PlatformV::Indeed => seq!['I'],
        PlatformV::CompanyWebsite => seq!['C'],
        PlatformV::Other(t) => seq!['O'] + enc_lp(t),
    }
}

/// A status: its tag letter.
pub open spec fn enc_status(st: Status) -> Seq<char> {
    match st {
        Status::Applied => seq!['A'],
        Status::Interview => seq!['V'],
        Status::Offer => seq!['F'],
        Status::Rejected => seq!['R'],
    }
}

/// One record: its fields in order.
pub open spec fn enc_record(a: ApplicationV) -> Seq<char> {
    enc_lp(a.company_name) + enc_platform(a.platform) + seq![
        if a.resume_modified {
            '1'
        } else {
            '0'
        },
    ] + enc_lp(a.resume_version) + enc_status(a.status) + date_chars(a.applied_date) + enc_lp(
        a.notes,
    )
}

/// A list of records, in order.
pub open spec fn enc_list(s: Seq<ApplicationV>) -> Seq<char>
    decreases s.len(),
{
    if s.len() == 0 {
        Seq::empty()
    } else {
        enc_record(s[0]) + enc_list(s.drop_first())
    }
}

/// The whole collection: its length in decimal, a colon, the records.
pub open spec fn enc_collection(s: Seq<ApplicationV>) -> Seq<char> {
    enc_num(s.len() as int) + seq![':'] + enc_list(s)
}

/// Whether a record fits the encoding: its date names a real day and its
/// texts are of machine length.
pub open spec fn record_encodable(a: ApplicationV) -> bool {
    &&& a.applied_date.wf()
    &&& a.company_name.len() <= u64::MAX
    &&& a.resume_version.len() <= u64::MAX
    &&& a.notes.len() <= u64::MAX
    &&& (match a.platform {
        PlatformV::Other(t) => t.len() <= u64::MAX,
        _ => true,
    })
}

/// Whether a collection fits the encoding.
pub open spec fn collection_encodable(s: Seq<ApplicationV>) -> bool {
    &&& s.len() <= u64::MAX
    &&& (forall|i: int| 0 <= i < s.len() ==> record_encodable(#[trigger] s[i]))
}

// ---------------------------------------------------------------------------
// The parsers, as mathematics
// ---------------------------------------------------------------------------

/// Fold decimal digits greedily into a value, failing past the machine
/// bound; stops at the first non-digit.
pub open spec fn parse_num_rec(s: Seq<char>, acc: int) -> Option<(int, Seq<char>)>
    decreases s.len(),
{
    if s.len() > 0 && is_digit_char(s[0]) {
        let acc2 = acc * 10 + digit_value(s[0]);
        if acc2 > u64::MAX {
            Option::None
        } else {
            parse_num_rec(s.drop_first(), acc2)
        }
    } else {
        Option::Some((acc, s))
    }
}

/// A decimal number: at least one digit, value within the machine bound.
pub open spec fn parse_num(s: Seq<char>) -> Option<(int, Seq<char>)> {
    if s.len() > 0 && is_digit_char(s[0]) {
        parse_num_rec(s, 0)
    } else {
        Option::None
    }
}

/// Exactly the given character.
pub open spec fn parse_char(s: Seq<char>, c: char) -> Option<Seq<char>> {
    if s.len() > 0 && s[0] == c {
        Option::Some(s.drop_first())
    } else {
        Option::None
    }
}

/// Exactly `n` characters.
pub open spec fn parse_take(s: Seq<char>, n: int) -> Option<(Seq<char>, Seq<char>)> {
    if 0 <= n <= s.len() {
        Option::Some((s.take(n), s.skip(n)))
    } else {
        Option::None
    }
}

/// A length-prefixed text.
pub open spec fn parse_lp(s: Seq<char>) -> Option<(Seq<char>, Seq<char>)> {
    match parse_num(s) {
        Option::Some((n, r1)) => match parse_char(r1, ':') {
            Option::Some(r2) => parse_take(r2, n),
            Option::None => Option::None,
        },
        Option::None => Option::None,
    }
}

/// A platform tag, with its text for the custom branch.
pub open spec fn parse_platform(s: Seq<char>) -> Option<(PlatformV, Seq<char>)> {
    if s.len() == 0 {
        Option::None
    } else if s[0] == 'L' {
        Option::Some((PlatformV::LinkedIn, s.drop_first()))
    } else if s[0] == 'I' {
        Option::Some((PlatformV::Indeed, s.drop_first()))
    } else if s[0] == 'C' {
        Option::Some((PlatformV::CompanyWebsite, s.drop_first()))
    } else if s[0] == 'O' {
        match parse_lp(s.drop_first()) {
            Option::Some((t, r)) => Option::Some((PlatformV::Other(t), r)),
            Option::None => Option::None,
        }
    } else {
        Option::None
    }
}

/// A status tag.
pub open spec fn parse_status(s: Seq<char>) -> Option<(Status, Seq<char>)> {
    if s.len() == 0 {
        Option::None
    } else if s[0] == 'A' {
        Option::Some((Status::Applied, s.drop_first()))
    } else if s[0] == 'V' {
        Option::Some((Status::Interview, s.drop_first()))
    } else if s[0] == 'F' {
        Option::Some((Status::Offer, s.drop_first()))
    } else if s[0] == 'R' {
        Option::Some((Status::Rejected, s.drop_first()))
    } else {
        Option::None
    }
}

/// A boolean flag: `1` or `0`.
pub open spec fn parse_flag(s: Seq<char>) -> Option<(bool, Seq<char>)> {
    if s.len() == 0 {
        Option::None
    } else if s[0] == '1' {
        Option::Some((true, s.drop_first()))
    } else if s[0] == '0' {
        Option::Some((false, s.drop_first()))
    } else {
        Option::None
    }
}

/// A ten-character date naming a real day.
pub open spec fn parse_date_field(s: Seq<char>) -> Option<(Date, Seq<char>)> {
    if s.len() >= 10 {
        match parse_date(s.take(10)) {
            Option::Some(d) => Option::Some((d, s.skip(10))),
            Option::None => Option::None,
        }
    } else {
        Option::None
    }
}

/// One record.
pub open spec fn parse_record(s: Seq<char>) -> Option<(ApplicationV, Seq<char>)> {
    match parse_lp(s) {
        Option::Some((company, r1)) => match parse_platform(r1) {
            Option::Some((platform, r2)) => match parse_flag(r2) {
                Option::Some((resume_modified, r3)) => match parse_lp(r3) {
                    Option::Some((resume_version, r4)) => match parse_status(r4) {
                        Option::Some((status, r5)) => match parse_date_field(r5) {
                            Option::Some((applied_date, r6)) => match parse_lp(r6) {
                                Option::Some((notes, r7)) => Option::Some(
                                    (
                                        ApplicationV {
                                            company_name: company,
                                            platform,
                                            resume_modified,
                                            resume_version,
                                            status,
                                            applied_date,
                                            notes,
                                        },
                                        r7,
                                    ),
                                ),
                                Option::None => Option::None,
                            },
                            Option::None => Option::None,
                        },
                        Option::None => Option::None,
                    },
                    Option::None => Option::None,
                },
                Option::None => Option::None,
            },
            Option::None => Option::None,
        },
        Option::None => Option::None,
    }
}

/// Exactly `n` records.
pub open spec fn parse_list(s: Seq<char>, n: nat) -> Option<(Seq<ApplicationV>, Seq<char>)>
    decreases n,
{
    if n == 0 {
        Option::Some((Seq::empty(), s))
    } else {
        match parse_record(s) {
            Option::Some((a, r)) => match parse_list(r, (n - 1) as nat) {
                Option::Some((rest, r2)) => Option::Some((seq![a] + rest, r2)),
                Option::None => Option::None,
            },
            Option::None => Option::None,
        }
    }
}

/// The whole collection; the text must end with the last record.
pub open spec fn parse_collection(s: Seq<char>) -> Option<Seq<ApplicationV>> {
    match parse_num(s) {
        Option::Some((n, r1)) => match parse_char(r1, ':') {
            Option::Some(r2) => match parse_list(r2, n as nat) {
                Option::Some((records, r3)) => if r3.len() == 0 {
                    Option::Some(records)
                } else {
                    Option::None
                },
                Option::None => Option::None,
            },
            Option::None => Option::None,
        },
        Option::None => Option::None,
    }
}

// ---------------------------------------------------------------------------
// Round trip: parsing what was encoded gives the value back
// ---------------------------------------------------------------------------

/// The power of ten that shifts past the digits of `n`.
pub open spec fn num_scale(n: int) -> int
    decreases n,
{
    if n < 10 {
        10
    } else {
        10 * num_scale(n / 10)
    }
}

proof fn lemma_num_scale_pos(n: int)
    ensures
        num_scale(n) >= 10,
    decreases n,
{
    if n >= 10 {
        lemma_num_scale_pos(n / 10);
    }
}

proof fn lemma_enc_num_first_digit(n: int)
    requires
        0 <= n,
    ensures
        enc_num(n).len() > 0,
        is_digit_char(enc_num(n)[0]),
    decreases n,
{
    if n >= 10 {
        lemma_enc_num_first_digit(n / 10);
        assert(enc_num(n)[0] == enc_num(n / 10)[0]);
    }
}

/// Folding the digits of `n` after any digits already folded into `acc`
/// continues with the combined value.
proof fn lemma_parse_num_rec_append(n: int, acc: int, rest: Seq<char>)
    requires
        0 <= n,
        0 <= acc,
        acc * num_scale(n) + n <= u64::MAX,
    ensures
        parse_num_rec(enc_num(n) + rest, acc) == parse_num_rec(rest, acc * num_scale(n) + n),
    decreases n,
{
    lemma_num_scale_pos(n);
    if n < 10 {
        let s = enc_num(n) + rest;
        assert(s[0] == spec_digit_char(n));
        crate::text::lemma_digit_char_value(n);
        assert(s.drop_first() =~= rest);
        assert(acc * 10 + n <= u64::MAX);
    } else {
        let d = n % 10;
        let m = n / 10;
        crate::text::lemma_digit_char_value(d);
        assert(enc_num(n) + rest =~= enc_num(m) + (seq![spec_digit_char(d)] + rest));
        let acc2 = acc * num_scale(m) + m;
        assert(acc * num_scale(n) + n == acc2 * 10 + d) by (nonlinear_arith)
            requires
                num_scale(n) == 10 * num_scale(m),
                acc2 == acc * num_scale(m) + m,
                m == n / 10,
                d == n % 10,
                n >= 10,
        ;
        assert(acc2 >= 0) by (nonlinear_arith)
            requires
                acc >= 0,
                m >= 0,
                num_scale(m) >= 10,
                acc2 == acc * num_scale(m) + m,
        ;
        assert(acc2 * 10 + d <= u64::MAX);
        assert(acc2 <= u64::MAX) by (nonlinear_arith)
            requires
                acc2 >= 0,
                d >= 0,
                acc2 * 10 + d <= u64::MAX,
        ;
        lemma_parse_num_rec_append(m, acc, seq![spec_digit_char(d)] + rest);
        let s2 = seq![spec_digit_char(d)] + rest;
        assert(parse_num_rec(enc_num(n) + rest, acc) == parse_num_rec(s2, acc2));
        assert(s2[0] == spec_digit_char(d));
        assert(s2.drop_first() =~= rest);
        assert(parse_num_rec(s2, acc2) == parse_num_rec(rest, acc2 * 10 + d));
    }
}

/// Parsing a number that was encoded, followed by anything that does not
/// begin with a digit, gives the number back and leaves the rest.
proof fn lemma_parse_num_append(n: int, rest: Seq<char>)
    requires
        0 <= n <= u64::MAX,
        rest.len() == 0 || !is_digit_char(rest[0]),
    ensures
        parse_num(enc_num(n) + rest) == Option::Some((n, rest)),
{
    lemma_enc_num_first_digit(n);
    assert((enc_num(n) + rest)[0] == enc_num(n)[0]);
    lemma_num_scale_pos(n);
    assert(0 * num_scale(n) + n <= u64::MAX);
    lemma_parse_num_rec_append(n, 0, rest);
    assert(parse_num_rec(rest, n) == Option::Some((n, rest)));
}

/// Parsing a length-prefixed text that was encoded gives the text back.
proof fn lemma_parse_lp_append(s: Seq<char>, rest: Seq<char>)
    requires
        s.len() <= u64::MAX,
    ensures
        parse_lp(enc_lp(s) + rest) == Option::Some((s, rest)),
{
    let tail = seq![':'] + s + rest;
    assert(enc_lp(s) + rest =~= enc_num(s.len() as int) + tail);
    assert(tail[0] == ':');
    assert(!is_digit_char(':'));
    lemma_parse_num_append(s.len() as int, tail);
    assert(tail.drop_first() =~= s + rest);
    assert((s + rest).take(s.len() as int) =~= s);
    assert((s + rest).skip(s.len() as int) =~= rest);
}

/// Parsing a platform that was encoded gives the platform back.
proof fn lemma_parse_platform_append(p: PlatformV, rest: Seq<char>)
    requires
        (match p {
            PlatformV::Other(t) => t.len() <= u64::MAX,
            _ => true,
        }),
    ensures
        parse_platform(enc_platform(p) + rest) == Option::Some((p, rest)),
{
    match p {
        PlatformV::LinkedIn => {
            assert((enc_platform(p) + rest).drop_first() =~= rest);
        },
        PlatformV::Indeed => {
            assert((enc_platform(p) + rest).drop_first() =~= rest);
        },
        PlatformV::CompanyWebsite => {
            assert((enc_platform(p) + rest).drop_first() =~= rest);
        },
        PlatformV::Other(t) => {
            let s = enc_platform(p) + rest;
            assert(s[0] == 'O');
            assert(s.drop_first() =~= enc_lp(t) + rest);
            lemma_parse_lp_append(t, rest);
        },
    }
}

/// Parsing a record that was encoded gives the record back.
#[verifier::rlimit(50)]
proof fn lemma_parse_record_append(a: ApplicationV, rest: Seq<char>)
    requires
        record_encodable(a),
    ensures
        parse_record(enc_record(a) + rest) == Option::Some((a, rest)),
{
    let flag = seq![
        if a.resume_modified {
            '1'
        } else {
            '0'
        },
    ];
    let r6 = enc_lp(a.notes) + rest;
    let r5 = date_chars(a.applied_date) + r6;
    let r4 = enc_status(a.status) + r5;
    let r3 = enc_lp(a.resume_version) + r4;
    let r2 = flag + r3;
    let r1 = enc_platform(a.platform) + r2;
    assert(enc_record(a) + rest =~= enc_lp(a.company_name) + r1);
    lemma_parse_lp_append(a.company_name, r1);
    lemma_parse_platform_append(a.platform, r2);
    assert(r2[0] == flag[0]);
    assert(r2.drop_first() =~= r3);
    lemma_parse_lp_append(a.resume_version, r4);
    assert(r4.drop_first() =~= r5);
    assert(parse_status(r4) == Option::Some((a.status, r5))) by {
        match a.status {
            Status::Applied => {
                assert(r4[0] == 'A');
            },
            Status::Interview => {
                assert(r4[0] == 'V');
            },
            Status::Offer => {
                assert(r4[0] == 'F');
            },
            Status::Rejected => {
                assert(r4[0] == 'R');
            },
        }
    };
    assert(date_chars(a.applied_date).len() == 10);
    assert(r5.take(10) =~= date_chars(a.applied_date));
    assert(r5.skip(10) =~= r6);
    crate::date::lemma_parse_render_date(a.applied_date);
    lemma_parse_lp_append(a.notes, rest);
}

/// Parsing a list of records that was encoded gives the records back.
proof fn lemma_parse_list_append(s: Seq<ApplicationV>, rest: Seq<char>)
    requires
        forall|i: int| 0 <= i < s.len() ==> record_encodable(#[trigger] s[i]),
    ensures
        parse_list(enc_list(s) + rest, s.len()) == Option::Some((s, rest)),
    decreases s.len(),
{
    if s.len() == 0 {
        assert(enc_list(s) + rest =~= rest);
        assert(parse_list(rest, 0) == Option::Some((Seq::<ApplicationV>::empty(), rest)));
        assert(s =~= Seq::<ApplicationV>::empty());
    } else {
        let tail = s.drop_first();
        assert(enc_list(s) + rest =~= enc_record(s[0]) + (enc_list(tail) + rest));
        lemma_parse_record_append(s[0], enc_list(tail) + rest);
        assert(forall|i: int| 0 <= i < tail.len() ==> record_encodable(#[trigger] tail[i]));
        lemma_parse_list_append(tail, rest);
        assert(seq![s[0]] + tail =~= s);
    }
}

/// The round trip: parsing an encoded collection gives the collection
/// back, for every collection of encodable records.
pub proof fn lemma_parse_collection_enc(s: Seq<ApplicationV>)
    requires
        collection_encodable(s),
    ensures
        parse_collection(enc_collection(s)) == Option::Some(s),
{
    let tail = seq![':'] + enc_list(s);
    assert(enc_collection(s) =~= enc_num(s.len() as int) + tail);
    assert(tail[0] == ':');
    assert(!is_digit_char(':'));
    lemma_parse_num_append(s.len() as int, tail);
    assert(tail.drop_first() =~= enc_list(s));
    assert(enc_list(s) =~= enc_list(s) + Seq::<char>::empty());
    lemma_parse_list_append(s, Seq::<char>::empty());
    assert(parse_list(enc_list(s), s.len()) == Option::Some((s, Seq::<char>::empty())));
}

// ---------------------------------------------------------------------------
// Encoding, executable
// ---------------------------------------------------------------------------

/// Appending one record's encoding extends the list's encoding.
proof fn lemma_enc_list_snoc(s: Seq<ApplicationV>, a: ApplicationV)
    ensures
        enc_list(s.push(a)) == enc_list(s) + enc_record(a),
    decreases s.len(),
{
    if s.len() == 0 {
        assert(s.push(a)[0] == a);
        assert(s.push(a).drop_first() =~= Seq::<ApplicationV>::empty());
        assert(enc_list(Seq::<ApplicationV>::empty()) == Seq::<char>::empty());
        assert(enc_list(s.push(a)) == enc_record(a) + Seq::<char>::empty());
        assert(enc_list(s) == Seq::<char>::empty());
        assert(enc_list(s.push(a)) =~= enc_list(s) + enc_record(a));
    } else {
        assert(s.push(a)[0] == s[0]);
        assert(s.push(a).drop_first() =~= s.drop_first().push(a));
        lemma_enc_list_snoc(s.drop_first(), a);
        assert(enc_list(s.push(a)) == enc_record(s[0]) + enc_list(s.drop_first().push(a)));
        assert(enc_list(s.push(a)) == enc_record(s[0]) + (enc_list(s.drop_first()) + enc_record(
            a,
        )));
        assert(enc_list(s.push(a)) =~= enc_list(s) + enc_record(a));
    }
}

/// Append a number's decimal digits.
fn push_num(out: &mut Vec<char>, n: u64)
    ensures
        final(out)@ == old(out)@ + enc_num(n as int),
    decreases n,
{
    if n >= 10 {
        push_num(out, n / 10);
        out.push(digit_char((n % 10) as u32));
        proof {
            assert(out@ =~= old(out)@ + enc_num(n as int));
        }
    } else {
        out.push(digit_char(n as u32));
        proof {
            assert(out@ =~= old(out)@ + enc_num(n as int));
        }
    }
}

/// Append a string's characters.
fn push_text(out: &mut Vec<char>, s: &String)
    ensures
        final(out)@ == old(out)@ + s@,
{
    let st: &str = s.as_str();
    let n = st.unicode_len();
    let mut i: usize = 0;
    while i < n
        invariant
            n == st@.len(),
            st@ == s@,
            i <= n,
            out@ == old(out)@ + s@.take(i as int),
        decreases n - i,
    {
        out.push(st.get_char(i));
        proof {
            assert(out@ =~= old(out)@ + s@.take(i + 1));
        }
        i += 1;
    }
    proof {
        assert(out@ =~= old(out)@ + s@);
    }
}

/// Append a length-prefixed string.
fn push_lp(out: &mut Vec<char>, s: &String)
    ensures
        final(out)@ == old(out)@ + enc_lp(s@),
{
    let n = s.as_str().unicode_len();
    push_num(out, n as u64);
    out.push(':');
    push_text(out, s);
    proof {
        assert(out@ =~= old(out)@ + enc_lp(s@));
    }
}

/// Append one record's encoding.
#[verifier::rlimit(50)]
fn push_record(out: &mut Vec<char>, a: &Application)
    requires
        a@.applied_date.wf(),
    ensures
        final(out)@ == old(out)@ + enc_record(a@),
{
    let ghost p0 = out@;
    push_lp(out, &a.company_name);
    let ghost p1 = p0 + enc_lp(a@.company_name);
    match &a.platform {
        Platform::LinkedIn => {
            out.push('L');
            proof {
                assert(out@ =~= p1 + enc_platform(a@.platform));
            }
        },
        Platform::Indeed => {
            out.push('I');
            proof {
                assert(out@ =~= p1 + enc_platform(a@.platform));
            }
        },
        Platform::CompanyWebsite => {
            out.push('C');
            proof {
                assert(out@ =~= p1 + enc_platform(a@.platform));
            }
        },
        Platform::Other(t) => {
            out.push('O');
            push_lp(out, t);
            proof {
                assert(out@ =~= p1 + enc_platform(a@.platform));
            }
        },
    }
    let ghost p2 = p1 + enc_platform(a@.platform);
    out.push(
        if a.resume_modified {
            '1'
        } else {
            '0'
        },
    );
    let ghost p3 = p2 + seq![
        if a@.resume_modified {
            '1'
        } else {
            '0'
        },
    ];
    proof {
        assert(out@ =~= p3);
    }
    push_lp(out, &a.resume_version);
    let ghost p4 = p3 + enc_lp(a@.resume_version);
    match a.status {
        Status::Applied => {
            out.push('A');
        },
        Status::Interview => {
            out.push('V');
        },
        Status::Offer => {
            out.push('F');
        },
        Status::Rejected => {
            out.push('R');
        },
    }
    let ghost p5 = p4 + enc_status(a@.status);
    proof {
        assert(out@ =~= p5);
    }
    let mut dc = render_date(&a.applied_date);
    out.append(&mut dc);
    let ghost p6 = p5 + date_chars(a@.applied_date);
    proof {
        assert(out@ =~= p6);
    }
    push_lp(out, &a.notes);
    proof {
        assert(out@ =~= p6 + enc_lp(a@.notes));
        assert(out@ =~= p0 + enc_record(a@));
    }
}

/// The whole collection, encoded as text. `save` writes exactly this.
pub fn encode_records(apps: &Vec<Application>) -> (v: Vec<char>)
    requires
        forall|i: int| 0 <= i < apps@.len() ==> (#[trigger] apps@[i])@.applied_date.wf(),
    ensures
        v@ == enc_collection(crate::chart::avs(apps@)),
{
    let ghost views = crate::chart::avs(apps@);
    let mut v: Vec<char> = Vec::new();
    push_num(&mut v, apps.len() as u64);
    v.push(':');
    let ghost head = v@;
    proof {
        assert(head =~= enc_num(views.len() as int) + seq![':']);
        assert(views.take(0) =~= Seq::<ApplicationV>::empty());
        assert(v@ =~= head + enc_list(views.take(0)));
    }
    let mut i: usize = 0;
    while i < apps.len()
        invariant
            i <= apps@.len(),
            views == crate::chart::avs(apps@),
            forall|k: int| 0 <= k < apps@.len() ==> (#[trigger] apps@[k])@.applied_date.wf(),
            head == enc_num(views.len() as int) + seq![':'],
            v@ == head + enc_list(views.take(i as int)),
        decreases apps@.len() - i,
    {
        proof {
            assert(views[i as int] == apps@[i as int]@);
        }
        push_record(&mut v, &apps[i]);
        proof {
            lemma_enc_list_snoc(views.take(i as int), views[i as int]);
            assert(views.take(i + 1) =~= views.take(i as int).push(views[i as int]));
            assert(v@ =~= head + enc_list(views.take(i + 1)));
        }
        i += 1;
    }
    proof {
        assert(views.take(apps@.len() as int) =~= views);
        assert(v@ =~= enc_collection(views));
    }
    v
}

// ---------------------------------------------------------------------------
// Decoding, executable
// ---------------------------------------------------------------------------

/// Read a decimal number at `pos`.
fn de_num(v: &Vec<char>, pos: usize) -> (r: Option<(u64, usize)>)
    requires
        pos <= v@.len(),
    ensures
        (match r {
            Option::Some((n, p2)) => pos <= p2 <= v@.len() && parse_num(v@.skip(pos as int))
                == Option::Some((n as int, v@.skip(p2 as int))),
            Option::None => parse_num(v@.skip(pos as int)) is None,
        }),
{
    if pos >= v.len() || !exec_is_digit_char(v[pos]) {
        proof {
            if pos < v@.len() {
                assert(v@.skip(pos as int)[0] == v@[pos as int]);
            }
        }
        return None;
    }
    let mut p = pos;
    let mut acc: u64 = 0;
    proof {
        assert(v@.skip(pos as int)[0] == v@[pos as int]);
    }
    while p < v.len() && exec_is_digit_char(v[p])
        invariant
            pos <= p <= v@.len(),
            parse_num_rec(v@.skip(pos as int), 0) == parse_num_rec(v@.skip(p as int), acc as int),
        decreases v@.len() - p,
    {
        proof {
            assert(v@.skip(p as int)[0] == v@[p as int]);
            assert(v@.skip(p as int).drop_first() =~= v@.skip(p + 1));
        }
        let d = exec_digit_value(v[p]);
        let acc10 = match acc.checked_mul(10) {
            Some(x) => x,
            None => {
                return None;
            },
        };
        acc = match acc10.checked_add(d as u64) {
            Some(x) => x,
            None => {
                return None;
            },
        };
        p += 1;
    }
    proof {
        if p < v@.len() {
            assert(v@.skip(p as int)[0] == v@[p as int]);
        }
        assert(parse_num_rec(v@.skip(p as int), acc as int) == Option::Some(
            (acc as int, v@.skip(p as int)),
        ));
    }
    Some((acc, p))
}

/// Read the given character at `pos`.
fn de_char(v: &Vec<char>, pos: usize, c: char) -> (r: Option<usize>)
    requires
        pos <= v@.len(),
    ensures
        (match r {
            Option::Some(p2) => pos < p2 <= v@.len() && parse_char(v@.skip(pos as int), c)
                == Option::Some(v@.skip(p2 as int)),
            Option::None => parse_char(v@.skip(pos as int), c) is None,
        }),
{
    if pos < v.len() && v[pos] == c {
        proof {
            assert(v@.skip(pos as int)[0] == v@[pos as int]);
            assert(v@.skip(pos as int).drop_first() =~= v@.skip(pos + 1));
        }
        Some(pos + 1)
    } else {
        proof {
            if pos < v@.len() {
                assert(v@.skip(pos as int)[0] == v@[pos as int]);
            }
        }
        None
    }
}

/// Read exactly `n` characters at `pos`, as a string.
fn de_take(v: &Vec<char>, pos: usize, n: u64) -> (r: Option<(String, usize)>)
    requires
        pos <= v@.len(),
    ensures
        (match r {
            Option::Some((s, p2)) => pos <= p2 <= v@.len() && parse_take(
                v@.skip(pos as int),
                n as int,
            ) == Option::Some((s@, v@.skip(p2 as int))),
            Option::None => parse_take(v@.skip(pos as int), n as int) is None,
        }),
{
    if n > (v.len() - pos) as u64 {
        return None;
    }
    let cnt = n as usize;
    let mut cs: Vec<char> = Vec::new();
    let mut k: usize = 0;
    while k < cnt
        invariant
            pos + cnt <= v@.len(),
            v@.len() <= usize::MAX,
            cnt == n,
            k <= cnt,
            cs@ == v@.subrange(pos as int, pos + k),
        decreases cnt - k,
    {
        cs.push(v[pos + k]);
        proof {
            assert(cs@ =~= v@.subrange(pos as int, pos + k + 1));
        }
        k += 1;
    }
    let s = chars_string(&cs);
    proof {
        assert(v@.skip(pos as int).take(n as int) =~= v@.subrange(pos as int, pos + cnt));
        assert(v@.skip(pos as int).skip(n as int) =~= v@.skip(pos + cnt));
    }
    Some((s, pos + cnt))
}

/// Read a length-prefixed string at `pos`.
fn de_lp(v: &Vec<char>, pos: usize) -> (r: Option<(String, usize)>)
    requires
        pos <= v@.len(),
    ensures
        (match r {
            Option::Some((s, p2)) => pos <= p2 <= v@.len() && parse_lp(v@.skip(pos as int))
                == Option::Some((s@, v@.skip(p2 as int))),
            Option::None => parse_lp(v@.skip(pos as int)) is None,
        }),
{
    let (n, p1) = match de_num(v, pos) {
        Some(x) => x,
        None => {
            return None;
        },
    };
    let p2 = match de_char(v, p1, ':') {
        Some(x) => x,
        None => {
            return None;
        },
    };
    de_take(v, p2, n)
}

/// Read a platform at `pos`.
fn de_platform(v: &Vec<char>, pos: usize) -> (r: Option<(Platform, usize)>)
    requires
        pos <= v@.len(),
    ensures
        (match r {
            Option::Some((p, p2)) => pos <= p2 <= v@.len() && parse_platform(v@.skip(pos as int))
                == Option::Some((p@, v@.skip(p2 as int))),
            Option::None => parse_platform(v@.skip(pos as int)) is None,
        }),
{
    if pos >= v.len() {
        return None;
    }
    proof {
        assert(v@.skip(pos as int)[0] == v@[pos as int]);
        assert(v@.skip(pos as int).drop_first() =~= v@.skip(pos + 1));
    }
    let c = v[pos];
    if c == 'L' {
        Some((Platform::LinkedIn, pos + 1))
    } else if c == 'I' {
        Some((Platform::Indeed, pos + 1))
    } else if c == 'C' {
        Some((Platform::CompanyWebsite, pos + 1))
    } else if c == 'O' {
        match de_lp(v, pos + 1) {
            Some((t, p2)) => Some((Platform::Other(t), p2)),
            None => None,
        }
    } else {
        None
    }
}

/// Read a status at `pos`.
fn de_status(v: &Vec<char>, pos: usize) -> (r: Option<(Status, usize)>)
    requires
        pos <= v@.len(),
    ensures
        (match r {
            Option::Some((st, p2)) => pos <= p2 <= v@.len() && parse_status(v@.skip(pos as int))
                == Option::Some((st, v@.skip(p2 as int))),
            Option::None => parse_status(v@.skip(pos as int)) is None,
        }),
{
    if pos >= v.len() {
        return None;
    }
    proof {
        assert(v@.skip(pos as int)[0] == v@[pos as int]);
        assert(v@.skip(pos as int).drop_first() =~= v@.skip(pos + 1));
    }
    let c = v[pos];
    if c == 'A' {
        Some((Status::Applied, pos + 1))
    } else if c == 'V' {
        Some((Status::Interview, pos + 1))
    } else if c == 'F' {
        Some((Status::Offer, pos + 1))
    } else if c == 'R' {
        Some((Status::Rejected, pos + 1))
    } else {
        None
    }
}

/// Read a boolean flag at `pos`.
fn de_flag(v: &Vec<char>, pos: usize) -> (r: Option<(bool, usize)>)
    requires
        pos <= v@.len(),
    ensures
        (match r {
            Option::Some((b, p2)) => pos <= p2 <= v@.len() && parse_flag(v@.skip(pos as int))
                == Option::Some((b, v@.skip(p2 as int))),
            Option::None => parse_flag(v@.skip(pos as int)) is None,
        }),
{
    if pos >= v.len() {
        return None;
    }
    proof {
        assert(v@.skip(pos as int)[0] == v@[pos as int]);
        assert(v@.skip(pos as int).drop_first() =~= v@.skip(pos + 1));
    }
    let c = v[pos];
    if c == '1' {
        Some((true, pos + 1))
    } else if c == '0' {
        Some((false, pos + 1))
    } else {
        None
    }
}

/// Read a ten-character date at `pos`.
fn de_date(v: &Vec<char>, pos: usize) -> (r: Option<(Date, usize)>)
    requires
        pos <= v@.len(),
    ensures
        (match r {
            Option::Some((d, p2)) => pos <= p2 <= v@.len() && parse_date_field(v@.skip(pos as int))
                == Option::Some((d, v@.skip(p2 as int))) && d.wf(),
            Option::None => parse_date_field(v@.skip(pos as int)) is None,
        }),
{
    if v.len() - pos < 10 {
        return None;
    }
    let mut cs: Vec<char> = Vec::new();
    let mut k: usize = 0;
    while k < 10
        invariant
            pos + 10 <= v@.len(),
            v@.len() <= usize::MAX,
            k <= 10,
            cs@ == v@.subrange(pos as int, pos + k),
        decreases 10 - k,
    {
        cs.push(v[pos + k]);
        proof {
            assert(cs@ =~= v@.subrange(pos as int, pos + k + 1));
        }
        k += 1;
    }
    proof {
        assert(v@.skip(pos as int).take(10) =~= v@.subrange(pos as int, pos + 10));
        assert(v@.skip(pos as int).skip(10) =~= v@.skip(pos + 10));
    }
    match parse_date_chars(&cs) {
        Some(d) => Some((d, pos + 10)),
        None => None,
    }
}

/// Read one record at `pos`.
fn de_record(v: &Vec<char>, pos: usize) -> (r: Option<(Application, usize)>)
    requires
        pos <= v@.len(),
    ensures
        (match r {
            Option::Some((a, p2)) => pos <= p2 <= v@.len() && parse_record(v@.skip(pos as int))
                == Option::Some((a@, v@.skip(p2 as int))) && a@.applied_date.wf(),
            Option::None => parse_record(v@.skip(pos as int)) is None,
        }),
{
    let (company_name, p1) = match de_lp(v, pos) {
        Some(x) => x,
        None => {
            return None;
        },
    };
    let (platform, p2) = match de_platform(v, p1) {
        Some(x) => x,
        None => {
            return None;
        },
    };
    let (resume_modified, p3) = match de_flag(v, p2) {
        Some(x) => x,
        None => {
            return None;
        },
    };
    let (resume_version, p4) = match de_lp(v, p3) {
        Some(x) => x,
        None => {
            return None;
        },
    };
    let (status, p5) = match de_status(v, p4) {
        Some(x) => x,
        None => {
            return None;
        },
    };
    let (applied_date, p6) = match de_date(v, p5) {
        Some(x) => x,
        None => {
            return None;
        },
    };
    let (notes, p7) = match de_lp(v, p6) {
        Some(x) => x,
        None => {
            return None;
        },
    };
    let a = Application {
        company_name,
        platform,
        resume_modified,
        resume_version,
        status,
        applied_date,
        notes,
    };
    Some((a, p7))
}

/// Glue a decoded prefix onto the outcome of parsing the remaining records.
pub open spec fn glue_records(
    acc: Seq<ApplicationV>,
    o: Option<(Seq<ApplicationV>, Seq<char>)>,
) -> Option<(Seq<ApplicationV>, Seq<char>)> {
    match o {
        Option::Some((t, r)) => Option::Some((acc + t, r)),
        Option::None => Option::None,
    }
}

/// Decode a whole collection from text; `None` when the text is not the
/// encoding of any collection. `load` reads exactly this.
pub fn decode_records(v: &Vec<char>) -> (r: Option<Vec<Application>>)
    ensures
        (match r {
            Option::Some(apps) => parse_collection(v@) == Option::Some(crate::chart::avs(apps@))
                && (forall|i: int|
                0 <= i < apps@.len() ==> (#[trigger] apps@[i])@.applied_date.wf()),
            Option::None => parse_collection(v@) is None,
        }),
{
    proof {
        assert(v@.skip(0) =~= v@);
    }
    let (n, p1) = match de_num(v, 0) {
        Some(x) => x,
        None => {
            return None;
        },
    };
    let mut p = match de_char(v, p1, ':') {
        Some(x) => x,
        None => {
            return None;
        },
    };
    let ghost pstart = p as int;
    let mut apps: Vec<Application> = Vec::new();
    let mut i: u64 = 0;
    proof {
        assert(crate::chart::avs(apps@) =~= Seq::<ApplicationV>::empty());
        assert(glue_records(
            crate::chart::avs(apps@),
            parse_list(v@.skip(p as int), (n - i) as nat),
        ) == parse_list(v@.skip(pstart), n as nat));
    }
    while i < n
        invariant
            i <= n,
            p <= v@.len(),
            0 <= pstart <= v@.len(),
            p1 <= v@.len(),
            parse_num(v@) == Option::Some((n as int, v@.skip(p1 as int))),
            parse_char(v@.skip(p1 as int), ':') == Option::Some(v@.skip(pstart)),
            parse_list(v@.skip(pstart), n as nat) == glue_records(
                crate::chart::avs(apps@),
                parse_list(v@.skip(p as int), (n - i) as nat),
            ),
            forall|k: int| 0 <= k < apps@.len() ==> (#[trigger] apps@[k])@.applied_date.wf(),
        decreases n - i,
    {
        let ghost acc0 = crate::chart::avs(apps@);
        let (a, p2) = match de_record(v, p) {
            Some(x) => x,
            None => {
                proof {
                    assert((n - i) as nat > 0);
                    assert(parse_list(v@.skip(p as int), (n - i) as nat) is None);
                    assert(glue_records(
                        crate::chart::avs(apps@),
                        parse_list(v@.skip(p as int), (n - i) as nat),
                    ) is None);
                    assert(parse_list(v@.skip(pstart), n as nat) is None);
                    assert(parse_num(v@) == Option::Some((n as int, v@.skip(p1 as int))));
                    assert(parse_char(v@.skip(p1 as int), ':') == Option::Some(v@.skip(pstart)));
                    assert(parse_collection(v@) is None);
                }
                return None;
            },
        };
        proof {
            assert(parse_list(v@.skip(p as int), (n - i) as nat) == (
            match parse_list(v@.skip(p2 as int), (n - i - 1) as nat) {
                Option::Some((t, rr)) => Option::Some((seq![a@] + t, rr)),
                Option::None => Option::None,
            }));
        }
        apps.push(a);
        proof {
            assert(crate::chart::avs(apps@) =~= acc0.push(a@));
            match parse_list(v@.skip(p2 as int), (n - i - 1) as nat) {
                Option::Some((t, rr)) => {
                    assert(acc0 + (seq![a@] + t) =~= acc0.push(a@) + t);
                },
                Option::None => {},
            }
        }
        p = p2;
        i = i + 1;
    }
    proof {
        assert(parse_list(v@.skip(p as int), 0) == Option::Some(
            (Seq::<ApplicationV>::empty(), v@.skip(p as int)),
        ));
        assert(crate::chart::avs(apps@) + Seq::<ApplicationV>::empty() =~= crate::chart::avs(
            apps@,
        ));
        assert(parse_list(v@.skip(pstart), n as nat) == Option::Some(
            (crate::chart::avs(apps@), v@.skip(p as int)),
        ));
    }
    if p == v.len() {
        proof {
            assert(v@.skip(p as int).len() == 0);
        }
        Some(apps)
    } else {
        proof {
            assert(v@.skip(p as int).len() > 0);
        }
        None
    }
}

} // verus!
