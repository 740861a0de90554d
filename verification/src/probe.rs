//! One probe: the address it asks, what its answer means, and the rows that
//! a match leaves behind.

use vstd::prelude::*;
use crate::addr::{quad_text, push_quad};
use crate::block::{Source, label_text};
use crate::text::{decimal_digits, digit_char, push_decimal, push_str, string_of};

verus! {

/// One address to probe, with the tag of the block it was drawn from.
#[derive(Clone, Copy, Debug, PartialEq, Eq, Structural)]
pub struct HostTarget {
    pub addr: u32,
    pub source: Source,
}

#[derive(Clone, Debug)]
pub struct ModelDetails {
    pub parent_model: String,
    pub format: String,
    pub family: String,
    pub parameter_size: String,
    pub quantization_level: String,
}

/// One model that a server lists.
#[derive(Clone, Debug)]
pub struct ModelRecord {
    pub name: String,
    pub model: String,
    pub modified_at: String,
    pub size: u64,
    pub digest: String,
    pub details: ModelDetails,
}

/// What a probe found.
#[derive(Clone, Debug)]
pub enum ProbeOutcome {
    /// The service answered; `models` is empty when its list could not be read.
    Matched { status: u16, models: Vec<ModelRecord> },
    /// The port is open but the path is unknown there.
    PossibleMatch { status: u16 },
    NoMatch,
}

/// The status of a match.
pub const STATUS_MATCH: u16 = 200;

/// The status of a possible match.
pub const STATUS_POSSIBLE: u16 = 404;

/// `<address>:11434`
pub open spec fn server_text(addr: u32) -> Seq<char> {
    quad_text(addr) + ":11434"@
}

/// `http://<address>:11434/api/tags`
pub open spec fn url_text(addr: u32) -> Seq<char> {
    "http://"@ + server_text(addr) + "/api/tags"@
}

fn push_server(out: &mut Vec<char>, addr: u32)
    ensures
        final(out)@ == old(out)@ + server_text(addr),
{
    let ghost before = out@;
    push_quad(out, addr);
    push_str(out, ":11434");
    assert(out@ == before + server_text(addr));
}

/// The address and port that are asked.
pub fn server_address(addr: u32) -> (s: String)
    ensures
        s@ == server_text(addr),
{
    let mut out: Vec<char> = Vec::new();
    push_server(&mut out, addr);
    string_of(&out)
}

/// The address that a probe fetches.
pub fn probe_url(addr: u32) -> (s: String)
    ensures
        s@ == url_text(addr),
{
    let mut out: Vec<char> = Vec::new();
    push_str(&mut out, "http://");
    push_server(&mut out, addr);
    push_str(&mut out, "/api/tags");
    assert(out@ == url_text(addr));
    string_of(&out)
}

/// A number in decimal.
pub fn decimal_string(n: u64) -> (s: String)
    ensures
        s@ == decimal_digits(n as nat),
{
    let mut out: Vec<char> = Vec::new();
    push_decimal(&mut out, n);
    string_of(&out)
}

/// `numerator / denominator` rounded to the nearest whole number, a half to
/// the even neighbour.
pub open spec fn round_half_even(numerator: nat, denominator: nat) -> nat {
    let q = numerator / denominator;
    let r = numerator % denominator;
    if 2 * r < denominator || (2 * r == denominator && q % 2 == 0) {
        q
    } else {
        q + 1
    }
}

/// Distance between neighbouring binary numbers of 53 significant bits at `n`.
pub open spec fn binary53_step(n: nat) -> nat
    decreases n,
{
    if n < 0x20_0000_0000_0000 {
        1
    } else {
        2 * binary53_step(n / 2)
    }
}

/// `n` rounded to 53 significant bits, a half to the even neighbour.
pub open spec fn binary53_nearest(n: nat) -> nat {
    round_half_even(n, binary53_step(n)) * binary53_step(n)
}

/// A size in hundredths of 2^30 bytes: the byte count is first rounded to 53
/// significant bits, then the hundredths are rounded to a whole number.
pub open spec fn gib_hundredths(size: u64) -> nat {
    round_half_even(binary53_nearest(size as nat) * 100, 0x4000_0000)
}

/// A size in units of 2^30 bytes with two decimals.
pub open spec fn size_text(size: u64) -> Seq<char> {
    let h = gib_hundredths(size);
    decimal_digits(h / 100) + seq!['.', digit_char(h % 100 / 10), digit_char(h % 10)]
}

fn round_half_even_of(numerator: u128, denominator: u128) -> (r: u128)
    requires
        0 < denominator <= 0x4000_0000,
        numerator < 0x1_0000_0000_0000_0000_0000,
    ensures
        r == round_half_even(numerator as nat, denominator as nat),
        r * denominator <= numerator + denominator,
        r <= numerator + 1,
{
    let q: u128 = numerator / denominator;
    let r: u128 = numerator % denominator;
    proof {
        vstd::arithmetic::div_mod::lemma_fundamental_div_mod(numerator as int, denominator as int);
        assert((q + 1) * denominator == denominator * q + denominator) by (nonlinear_arith);
        assert(q * denominator == denominator * q) by (nonlinear_arith);
        assert(q <= numerator) by (nonlinear_arith)
            requires
                denominator * q <= numerator,
                denominator >= 1,
                q >= 0,
        ;
    }
    if 2 * r < denominator || (2 * r == denominator && q % 2 == 0) {
        q
    } else {
        q + 1
    }
}

/// The hundredths of 2^30 bytes in a size.
pub fn size_hundredths(size: u64) -> (h: u64)
    ensures
        h == gib_hundredths(size),
        h <= 2_000_000_000_000,
{
    let mut step: u64 = 1;
    let mut top: u64 = size;
    while top >= 0x20_0000_0000_0000
        invariant
            1 <= step <= 4096,
            binary53_step(size as nat) == step * binary53_step(top as nat),
            step * top <= size,
        decreases top,
    {
        proof {
            let s: int = step as int;
            let t: int = top as int;
            assert(s * (2 * binary53_step((t / 2) as nat)) == (2 * s) * binary53_step(
                (t / 2) as nat,
            )) by (nonlinear_arith);
            assert((2 * s) * (t / 2) <= s * t) by (nonlinear_arith)
                requires
                    s >= 1,
                    t >= 0,
            ;
            assert(s <= 2047) by (nonlinear_arith)
                requires
                    s * t <= 0xFFFF_FFFF_FFFF_FFFF,
                    t >= 0x20_0000_0000_0000,
            ;
        }
        top = top / 2;
        step = step * 2;
    }
    assert(binary53_step(top as nat) == 1);
    assert(step * 1 == step) by (nonlinear_arith);
    let units: u128 = round_half_even_of(size as u128, step as u128);
    proof {
        assert(units * step <= size + step);
    }
    let nearest: u128 = units * step as u128;
    let h: u128 = round_half_even_of(nearest * 100, 0x4000_0000);
    proof {
        assert(h * 0x4000_0000 <= nearest * 100 + 0x4000_0000);
    }
    h as u64
}

/// A size in units of 2^30 bytes with two decimals.
pub fn size_gb_text(size: u64) -> (s: String)
    ensures
        s@ == size_text(size),
{
    let h: u64 = size_hundredths(size);
    let mut out: Vec<char> = Vec::new();
    push_decimal(&mut out, h / 100);
    out.push('.');
    out.push((0x30u8 + (h % 100 / 10) as u8) as char);
    out.push((0x30u8 + (h % 10) as u8) as char);
    assert(out@ == size_text(size));
    string_of(&out)
}

/// The fields of a row as texts.
pub open spec fn row_view(row: Vec<String>) -> Seq<Seq<char>> {
    Seq::new(row@.len(), |i: int| row@[i]@)
}

/// The rows of a list as texts.
pub open spec fn rows_view(rows: Vec<Vec<String>>) -> Seq<Seq<Seq<char>>> {
    Seq::new(rows@.len(), |i: int| row_view(rows@[i]))
}

/// The row of the endpoint stream for a host that answered with `status`:
/// server, probed address, status, source.
pub open spec fn endpoint_fields(target: HostTarget, status: u16) -> Seq<Seq<char>> {
    seq![
        server_text(target.addr),
        url_text(target.addr),
        decimal_digits(status as nat),
        label_text(target.source),
    ]
}

/// The row of the model stream for one model of the server at `addr`.
pub open spec fn model_fields(addr: u32, model: ModelRecord) -> Seq<Seq<char>> {
    seq![
        server_text(addr),
        model.name@,
        model.model@,
        model.modified_at@,
        size_text(model.size),
        model.digest@,
        model.details.parent_model@,
        model.details.format@,
        model.details.family@,
        model.details.parameter_size@,
        model.details.quantization_level@,
    ]
}

/// A host that answered as the service does: what the endpoint stream keeps
/// of it.
#[derive(Clone, Debug)]
pub struct EndpointRecord {
    pub address: String,
    pub url: String,
    pub status: u16,
    pub source: Source,
}

impl EndpointRecord {
    /// Whether this is the record of a host that answered with `status`.
    pub open spec fn is_for(&self, target: HostTarget, status: u16) -> bool {
        &&& self.address@ == server_text(target.addr)
        &&& self.url@ == url_text(target.addr)
        &&& self.status == status
        &&& self.source == target.source
    }

    /// The record as a row.
    pub open spec fn fields(&self) -> Seq<Seq<char>> {
        seq![self.address@, self.url@, decimal_digits(self.status as nat), label_text(self.source)]
    }

    pub fn of(target: HostTarget, status: u16) -> (record: EndpointRecord)
        ensures
            record.is_for(target, status),
            record.fields() == endpoint_fields(target, status),
    {
        EndpointRecord {
            address: server_address(target.addr),
            url: probe_url(target.addr),
            status,
            source: target.source,
        }
    }

    pub fn row(&self) -> (row: Vec<String>)
        ensures
            row_view(row) == self.fields(),
    {
        let mut row: Vec<String> = Vec::new();
        row.push(self.address.clone());
        row.push(self.url.clone());
        row.push(decimal_string(self.status as u64));
        row.push(self.source.label());
        assert(row_view(row) =~= self.fields());
        row
    }
}

/// The row of the endpoint stream for a host that answered with `status`.
pub fn endpoint_row(target: HostTarget, status: u16) -> (row: Vec<String>)
    ensures
        row_view(row) == endpoint_fields(target, status),
{
    EndpointRecord::of(target, status).row()
}

pub fn model_row(addr: u32, model: &ModelRecord) -> (row: Vec<String>)
    ensures
        row_view(row) == model_fields(addr, *model),
{
    let mut row: Vec<String> = Vec::new();
    row.push(server_address(addr));
    row.push(model.name.clone());
    row.push(model.model.clone());
    row.push(model.modified_at.clone());
    row.push(size_gb_text(model.size));
    row.push(model.digest.clone());
    row.push(model.details.parent_model.clone());
    row.push(model.details.format.clone());
    row.push(model.details.family.clone());
    row.push(model.details.parameter_size.clone());
    row.push(model.details.quantization_level.clone());
    assert(row_view(row) =~= model_fields(addr, *model));
    row
}

/// The models of an answer; none when the answer could not be read.
pub open spec fn models_of(body: Option<Vec<ModelRecord>>) -> Seq<ModelRecord> {
    match body {
        Some(models) => models@,
        None => Seq::empty(),
    }
}

/// Whether the answer's body is read at all: only that of a match is.
pub fn wants_body(status: u16) -> (b: bool)
    ensures
        b == (status == STATUS_MATCH),
{
    status == STATUS_MATCH
}

/// What one probe yields: the outcome, and what it adds to the two streams.
#[derive(Clone, Debug)]
pub struct ProbeReport {
    pub outcome: ProbeOutcome,
    pub endpoint: Option<EndpointRecord>,
    pub model_rows: Vec<Vec<String>>,
}

/// The outcome of a probe that ended with `status`, none standing for a
/// failed or timed out connection, and with `body` as the models read from
/// the answer, none standing for an answer that could not be read.
pub fn classify(status: Option<u16>, body: Option<Vec<ModelRecord>>) -> (r: ProbeOutcome)
    ensures
        status == Some(STATUS_MATCH) ==> (r matches ProbeOutcome::Matched { status: s, models }
            && s == STATUS_MATCH && models@ == models_of(body)),
        status == Some(STATUS_POSSIBLE) ==> r == (ProbeOutcome::PossibleMatch {
            status: STATUS_POSSIBLE,
        }),
        status != Some(STATUS_MATCH) && status != Some(STATUS_POSSIBLE) ==> r
            == ProbeOutcome::NoMatch,
{
    match status {
        Some(code) => {
            if code == STATUS_MATCH {
                let models: Vec<ModelRecord> = match body {
                    Some(models) => models,
                    None => Vec::new(),
                };
                ProbeOutcome::Matched { status: code, models }
            } else if code == STATUS_POSSIBLE {
                ProbeOutcome::PossibleMatch { status: code }
            } else {
                ProbeOutcome::NoMatch
            }
        },
        None => ProbeOutcome::NoMatch,
    }
}

/// The rows of the model stream for the models of one server, in the order
/// of the list.
pub open spec fn model_rows_of(addr: u32, models: Seq<ModelRecord>) -> Seq<Seq<Seq<char>>> {
    Seq::new(models.len(), |i: int| model_fields(addr, models[i]))
}

pub fn model_rows(addr: u32, models: &Vec<ModelRecord>) -> (rows: Vec<Vec<String>>)
    ensures
        rows_view(rows) == model_rows_of(addr, models@),
{
    let mut rows: Vec<Vec<String>> = Vec::new();
    let mut i: usize = 0;
    while i < models.len()
        invariant
            i <= models.len(),
            rows@.len() == i,
            forall|j: int| 0 <= j < i ==> row_view(#[trigger] rows@[j]) == model_fields(addr, models@[j]),
        decreases models.len() - i,
    {
        rows.push(model_row(addr, &models[i]));
        i = i + 1;
    }
    assert(rows_view(rows) =~= model_rows_of(addr, models@));
    rows
}

/// Judges the answer of one host.
///
/// A match leaves one row for the endpoint stream, whether or not its body
/// could be read, and one row for the model stream per model. Nothing else
/// leaves a row.
pub fn check_host(target: HostTarget, status: Option<u16>, body: Option<Vec<ModelRecord>>) -> (r:
    ProbeReport)
    ensures
        status == Some(STATUS_MATCH) ==> {
            &&& r.outcome matches ProbeOutcome::Matched { status: s, models }
            &&& s == STATUS_MATCH
            &&& models@ == models_of(body)
            &&& r.endpoint matches Some(record)
            &&& record.is_for(target, STATUS_MATCH)
            &&& rows_view(r.model_rows) == model_rows_of(target.addr, models_of(body))
        },
        status == Some(STATUS_POSSIBLE) ==> r.outcome == (ProbeOutcome::PossibleMatch {
            status: STATUS_POSSIBLE,
        }),
        status != Some(STATUS_MATCH) && status != Some(STATUS_POSSIBLE) ==> r.outcome
            == ProbeOutcome::NoMatch,
        status != Some(STATUS_MATCH) ==> r.endpoint is None && r.model_rows@.len() == 0,
{
    let outcome = classify(status, body);
    match &outcome {
        ProbeOutcome::Matched { status: code, models } => {
            let endpoint = EndpointRecord::of(target, *code);
            let model_rows = model_rows(target.addr, models);
            ProbeReport { outcome, endpoint: Some(endpoint), model_rows }
        },
        _ => ProbeReport { outcome, endpoint: None, model_rows: Vec::new() },
    }
}

} // verus!
