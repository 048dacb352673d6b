//! Fingerprints of request bodies: their compact JSON texts, fields in declaration order.
use crate::control::protocol::{
    AddDeviceRequest, ControlRequest, ListDevicesRequest, RemoveDeviceRequest, RequestBody,
};
use crate::text;
use crate::ublk::device;
use vstd::prelude::*;

verus! {

/// `serde_json::Error`, what `serde_json` reports when it cannot write a value.
#[verifier::external_type_specification]
#[verifier::external_body]
pub struct ExJsonError(serde_json::Error);

/// How one character stands inside a JSON string.
pub open spec fn json_char(c: char) -> Seq<char> {
    if c == '"' {
        seq!['\\', '"']
    } else if c == '\\' {
        seq!['\\', '\\']
    } else if c as u32 == 0x08 {
        seq!['\\', 'b']
    } else if c as u32 == 0x09 {
        seq!['\\', 't']
    } else if c as u32 == 0x0a {
        seq!['\\', 'n']
    } else if c as u32 == 0x0c {
        seq!['\\', 'f']
    } else if c as u32 == 0x0d {
        seq!['\\', 'r']
    } else if (c as u32) < 0x20 {
        seq![
            '\\',
            'u',
            '0',
            '0',
            text::hex_char(c as int / 16),
            text::hex_char(c as int % 16),
        ]
    } else {
        seq![c]
    }
}

/// How a text stands inside a JSON string.
pub open spec fn json_chars(s: Seq<char>) -> Seq<char>
    decreases s.len(),
{
    if s.len() == 0 {
        Seq::empty()
    } else {
        json_char(s[0]) + json_chars(s.drop_first())
    }
}

/// A text as a JSON string.
pub open spec fn json_string(s: Seq<char>) -> Seq<char> {
    seq!['"'] + json_chars(s) + seq!['"']
}

/// `serde_json::to_string` of a text. It never fails on one: a text is always written as a JSON
/// string, in which quotes, backslashes and the characters below U+0020 are escaped, the latter by
/// their short escapes where there are any, and every other character stands for itself.
#[verifier::external_body]
fn write_json_string(s: &str) -> (r: Result<String, serde_json::Error>)
    ensures
        r is Ok,
        r->Ok_0@ == json_string(s@),
{
    serde_json::to_string(s)
}

/// A number that may be missing, in JSON.
pub open spec fn json_number(n: Option<u32>) -> Seq<char> {
    match n {
        Some(n) => text::decimal(n as nat),
        None => "null"@,
    }
}

/// A text that may be missing, in JSON.
pub open spec fn json_text(t: Option<Seq<char>>) -> Seq<char> {
    match t {
        Some(t) => json_string(t),
        None => "null"@,
    }
}

/// A JSON value that may be missing.
pub open spec fn json_value(v: Option<Seq<char>>) -> Seq<char> {
    match v {
        Some(v) => v,
        None => "null"@,
    }
}

/// The JSON text of a request to add a device.
pub open spec fn json_add(r: AddDeviceRequest) -> Seq<char> {
    "{\"volume_id\":"@ + json_string(r.volume_id@) + ",\"ublk_device_id\":"@ + json_number(
        r.ublk_device_id,
    ) + ",\"overrides\":"@ + json_value(device::text_view(r.overrides)) + "}"@
}

/// The JSON text of a request to remove a device.
pub open spec fn json_remove(r: RemoveDeviceRequest) -> Seq<char> {
    "{\"device_id\":"@ + json_number(r.device_id) + ",\"volume_id\":"@ + json_text(
        device::text_view(r.volume_id),
    ) + (if r.force {
        ",\"force\":true}"@
    } else {
        ",\"force\":false}"@
    })
}

/// The JSON text of a request to list devices.
pub open spec fn json_list(r: ListDevicesRequest) -> Seq<char> {
    "{\"device_id\":"@ + json_number(r.device_id) + ",\"volume_id\":"@ + json_text(
        device::text_view(r.volume_id),
    ) + ",\"state\":"@ + json_text(device::text_view(r.state)) + "}"@
}

/// The JSON text of a request body.
pub open spec fn json_body(body: RequestBody) -> Seq<char> {
    match body {
        RequestBody::AddDevice(r) => json_add(r),
        RequestBody::RemoveDevice(r) => json_remove(r),
        RequestBody::ListDevices(r) => json_list(r),
        RequestBody::Health(_) => "{}"@,
    }
}

/// The fingerprint of a request body.
pub open spec fn fingerprint(body: RequestBody) -> Seq<u8> {
    vstd::utf8::encode_utf8(json_body(body))
}

fn write_number(n: Option<u32>) -> (r: String)
    ensures
        r@ == json_number(n),
{
    match n {
        Some(n) => text::decimal_u64(n as u64),
        None => "null".to_owned(),
    }
}

fn write_text(t: &Option<String>) -> (r: Result<String, serde_json::Error>)
    ensures
        r matches Ok(s) && s@ == json_text(device::text_view(*t)),
{
    match t {
        Some(t) => write_json_string(t.as_str()),
        None => Ok("null".to_owned()),
    }
}

fn write_add(r: &AddDeviceRequest) -> (json: Result<String, serde_json::Error>)
    ensures
        json matches Ok(s) && s@ == json_add(*r),
{
    let mut out: String = "{\"volume_id\":".to_owned();
    match write_json_string(r.volume_id.as_str()) {
        Ok(volume_id) => out.append(volume_id.as_str()),
        Err(e) => {
            return Err(e);
        },
    }
    out.append(",\"ublk_device_id\":");
    out.append(write_number(r.ublk_device_id).as_str());
    out.append(",\"overrides\":");
    match &r.overrides {
        Some(overrides) => out.append(overrides.as_str()),
        None => out.append("null"),
    }
    out.append("}");
    Ok(out)
}

fn write_remove(r: &RemoveDeviceRequest) -> (json: Result<String, serde_json::Error>)
    ensures
        json matches Ok(s) && s@ == json_remove(*r),
{
    let mut out: String = "{\"device_id\":".to_owned();
    out.append(write_number(r.device_id).as_str());
    out.append(",\"volume_id\":");
    match write_text(&r.volume_id) {
        Ok(volume_id) => out.append(volume_id.as_str()),
        Err(e) => {
            return Err(e);
        },
    }
    if r.force {
        out.append(",\"force\":true}");
    } else {
        out.append(",\"force\":false}");
    }
    Ok(out)
}

fn write_list(r: &ListDevicesRequest) -> (json: Result<String, serde_json::Error>)
    ensures
        json matches Ok(s) && s@ == json_list(*r),
{
    let mut out: String = "{\"device_id\":".to_owned();
    out.append(write_number(r.device_id).as_str());
    out.append(",\"volume_id\":");
    match write_text(&r.volume_id) {
        Ok(volume_id) => out.append(volume_id.as_str()),
        Err(e) => {
            return Err(e);
        },
    }
    out.append(",\"state\":");
    match write_text(&r.state) {
        Ok(state) => out.append(state.as_str()),
        Err(e) => {
            return Err(e);
        },
    }
    out.append("}");
    Ok(out)
}

impl ControlRequest {
    /// The fingerprint of the body, by which a repeated request is told from a different one.
    pub fn body_fingerprint(&self) -> (r: Result<Vec<u8>, serde_json::Error>)
        ensures
            r matches Ok(bytes) && bytes@ == fingerprint(self.body),
    {
        let json: Result<String, serde_json::Error> = match &self.body {
            RequestBody::AddDevice(r) => write_add(r),
            RequestBody::RemoveDevice(r) => write_remove(r),
            RequestBody::ListDevices(r) => write_list(r),
            RequestBody::Health(_) => Ok("{}".to_owned()),
        };
        match json {
            Ok(json) => Ok(json.as_str().as_bytes_vec()),
            Err(e) => Err(e),
        }
    }
}

/// Where two texts are the same, and so are the first `n` characters of both, the rests are.
proof fn lemma_same_rest(a: Seq<char>, ra: Seq<char>, b: Seq<char>, rb: Seq<char>)
    requires
        a + ra == b + rb,
        a.len() == b.len(),
    ensures
        a == b,
        ra == rb,
{
    assert((a + ra).subrange(0, a.len() as int) =~= a);
    assert((b + rb).subrange(0, b.len() as int) =~= b);
    assert((a + ra).subrange(a.len() as int, (a + ra).len() as int) =~= ra);
    assert((b + rb).subrange(b.len() as int, (b + rb).len() as int) =~= rb);
}

proof fn lemma_hex_digits(a: int, b: int)
    requires
        0 <= a < 16,
        0 <= b < 16,
        text::hex_char(a) == text::hex_char(b),
    ensures
        a == b,
{
}

/// An escaped character can be told from what follows it.
proof fn lemma_json_char(c: char, ra: Seq<char>, d: char, rb: Seq<char>)
    requires
        json_char(c) + ra == json_char(d) + rb,
    ensures
        c == d,
        ra == rb,
{
    let a = json_char(c) + ra;
    let b = json_char(d) + rb;
    assert(a[0] == json_char(c)[0]);
    assert(b[0] == json_char(d)[0]);
    if json_char(c).len() > 1 {
        assert(a[1] == json_char(c)[1]);
    }
    if json_char(d).len() > 1 {
        assert(b[1] == json_char(d)[1]);
    }
    assert(json_char(c).len() == json_char(d).len());
    lemma_same_rest(json_char(c), ra, json_char(d), rb);
    if json_char(c).len() == 6 {
        assert(json_char(c)[4] == json_char(d)[4]);
        assert(json_char(c)[5] == json_char(d)[5]);
        lemma_hex_digits(c as int / 16, d as int / 16);
        lemma_hex_digits(c as int % 16, d as int % 16);
    } else {
        assert(json_char(c)[0] == json_char(d)[0]);
    }
}

/// The inside of a JSON string can be told from what follows its closing quote.
proof fn lemma_json_chars(a: Seq<char>, ra: Seq<char>, b: Seq<char>, rb: Seq<char>)
    requires
        json_chars(a) + seq!['"'] + ra == json_chars(b) + seq!['"'] + rb,
    ensures
        a == b,
        ra == rb,
    decreases a.len() + b.len(),
{
    let x = json_chars(a) + seq!['"'] + ra;
    let y = json_chars(b) + seq!['"'] + rb;
    if a.len() == 0 && b.len() == 0 {
        assert(a =~= b);
        assert(x =~= seq!['"'] + ra);
        assert(y =~= seq!['"'] + rb);
        lemma_same_rest(seq!['"'], ra, seq!['"'], rb);
    } else if a.len() == 0 {
        assert(x[0] == '"');
        assert(y[0] == json_char(b[0])[0]);
    } else if b.len() == 0 {
        assert(y[0] == '"');
        assert(x[0] == json_char(a[0])[0]);
    } else {
        let ta = json_chars(a.drop_first()) + seq!['"'] + ra;
        let tb = json_chars(b.drop_first()) + seq!['"'] + rb;
        assert(x =~= json_char(a[0]) + ta);
        assert(y =~= json_char(b[0]) + tb);
        lemma_json_char(a[0], ta, b[0], tb);
        lemma_json_chars(a.drop_first(), ra, b.drop_first(), rb);
        assert(a =~= seq![a[0]] + a.drop_first());
        assert(b =~= seq![b[0]] + b.drop_first());
    }
}

proof fn lemma_json_string(a: Seq<char>, ra: Seq<char>, b: Seq<char>, rb: Seq<char>)
    requires
        json_string(a) + ra == json_string(b) + rb,
    ensures
        a == b,
        ra == rb,
{
    let ta = json_chars(a) + seq!['"'] + ra;
    let tb = json_chars(b) + seq!['"'] + rb;
    assert(json_string(a) + ra =~= seq!['"'] + ta);
    assert(json_string(b) + rb =~= seq!['"'] + tb);
    lemma_same_rest(seq!['"'], ta, seq!['"'], tb);
    lemma_json_chars(a, ra, b, rb);
}

proof fn lemma_json_text(a: Option<Seq<char>>, ra: Seq<char>, b: Option<Seq<char>>, rb: Seq<char>)
    requires
        json_text(a) + ra == json_text(b) + rb,
    ensures
        a == b,
        ra == rb,
{
    reveal_strlit("null");
    let x = json_text(a) + ra;
    let y = json_text(b) + rb;
    assert("null"@[0] == 'n' && "null"@.len() == 4);
    assert(x[0] == json_text(a)[0]);
    assert(y[0] == json_text(b)[0]);
    match (a, b) {
        (Some(s), Some(t)) => {
            lemma_json_string(s, ra, t, rb);
        },
        (None, None) => {
            lemma_same_rest("null"@, ra, "null"@, rb);
        },
        _ => {},
    }
}

/// What stands before the first comma can be told from what follows it.
proof fn lemma_up_to_comma(a: Seq<char>, ra: Seq<char>, b: Seq<char>, rb: Seq<char>)
    requires
        a + ra == b + rb,
        ra.len() > 0,
        rb.len() > 0,
        ra[0] == ',',
        rb[0] == ',',
        forall|i: int| 0 <= i < a.len() ==> #[trigger] a[i] != ',',
        forall|i: int| 0 <= i < b.len() ==> #[trigger] b[i] != ',',
    ensures
        a == b,
        ra == rb,
{
    if a.len() < b.len() {
        assert((a + ra)[a.len() as int] == ',');
        assert((b + rb)[a.len() as int] == b[a.len() as int]);
    } else if b.len() < a.len() {
        assert((b + rb)[b.len() as int] == ',');
        assert((a + ra)[b.len() as int] == a[b.len() as int]);
    }
    lemma_same_rest(a, ra, b, rb);
}

proof fn lemma_json_number(a: Option<u32>, ra: Seq<char>, b: Option<u32>, rb: Seq<char>)
    requires
        json_number(a) + ra == json_number(b) + rb,
        ra.len() > 0,
        rb.len() > 0,
        ra[0] == ',',
        rb[0] == ',',
    ensures
        a == b,
        ra == rb,
{
    reveal_strlit("null");
    assert("null"@ =~= seq!['n', 'u', 'l', 'l']);
    if a is Some {
        text::lemma_decimal_digits(a->0 as nat);
    }
    if b is Some {
        text::lemma_decimal_digits(b->0 as nat);
    }
    lemma_up_to_comma(json_number(a), ra, json_number(b), rb);
    assert(json_number(a)[0] == json_number(b)[0]);
    match (a, b) {
        (Some(m), Some(n)) => {
            text::lemma_decimal_injective(m as nat, n as nat);
        },
        _ => {},
    }
}

proof fn lemma_encode_injective(a: Seq<char>, b: Seq<char>)
    requires
        vstd::utf8::encode_utf8(a) == vstd::utf8::encode_utf8(b),
    ensures
        a == b,
{
    vstd::utf8::encode_utf8_decode_utf8(a);
    vstd::utf8::encode_utf8_decode_utf8(b);
}

proof fn lemma_regroup(
    a: Seq<char>,
    b: Seq<char>,
    c: Seq<char>,
    d: Seq<char>,
    e: Seq<char>,
)
    ensures
        a + b + c + d + e == a + (b + (c + (d + e))),
{
    assert(a + b + c + d + e =~= a + (b + (c + (d + e))));
}

proof fn lemma_last_two(a: Seq<char>, b: Seq<char>, c: Seq<char>)
    ensures
        a + b + c == a + (b + c),
{
    assert(a + b + c =~= a + (b + c));
}

/// How the pieces between the fields start, and how the two forms of the last field differ.
proof fn lemma_separators()
    ensures
        ",\"ublk_device_id\":"@.len() > 0 && ",\"ublk_device_id\":"@[0] == ',',
        ",\"overrides\":"@.len() > 0 && ",\"overrides\":"@[0] == ',',
        ",\"volume_id\":"@.len() > 0 && ",\"volume_id\":"@[0] == ',',
        ",\"force\":true}"@.len() == 14,
        ",\"force\":false}"@.len() == 15,
{
    reveal_strlit(",\"ublk_device_id\":");
    reveal_strlit(",\"overrides\":");
    reveal_strlit(",\"volume_id\":");
    reveal_strlit(",\"force\":true}");
    reveal_strlit(",\"force\":false}");
}

/// Whether the overrides of one request are missing, and those of the other are the JSON value
/// `null`. The two are written the same.
pub open spec fn missing_and_null(a: AddDeviceRequest, b: AddDeviceRequest) -> bool {
    ||| a.overrides is None && device::text_view(b.overrides) == Some("null"@)
    ||| b.overrides is None && device::text_view(a.overrides) == Some("null"@)
}

/// Requests to add a device that differ in anything have different fingerprints. (Missing overrides
/// and overrides that are the JSON value `null` are set aside as a pair: they are written the same.)
pub proof fn law_add_fingerprints_differ(a: AddDeviceRequest, b: AddDeviceRequest)
    requires
        !missing_and_null(a, b),
        fingerprint(RequestBody::AddDevice(a)) == fingerprint(RequestBody::AddDevice(b)),
    ensures
        a.volume_id@ == b.volume_id@,
        a.ublk_device_id == b.ublk_device_id,
        device::text_view(a.overrides) == device::text_view(b.overrides),
{
    lemma_encode_injective(json_add(a), json_add(b));
    let head = "{\"volume_id\":"@;
    let id_key = ",\"ublk_device_id\":"@;
    let over_key = ",\"overrides\":"@;
    lemma_separators();
    let va = json_value(device::text_view(a.overrides));
    let vb = json_value(device::text_view(b.overrides));
    let ta3 = va + "}"@;
    let tb3 = vb + "}"@;
    let ta2 = over_key + ta3;
    let tb2 = over_key + tb3;
    let ta1 = id_key + (json_number(a.ublk_device_id) + ta2);
    let tb1 = id_key + (json_number(b.ublk_device_id) + tb2);
    lemma_regroup(
        head + json_string(a.volume_id@),
        id_key,
        json_number(a.ublk_device_id),
        over_key,
        ta3,
    );
    lemma_regroup(
        head + json_string(b.volume_id@),
        id_key,
        json_number(b.ublk_device_id),
        over_key,
        tb3,
    );
    lemma_last_two(
        head + json_string(a.volume_id@) + id_key + json_number(a.ublk_device_id) + over_key,
        va,
        "}"@,
    );
    lemma_last_two(
        head + json_string(b.volume_id@) + id_key + json_number(b.ublk_device_id) + over_key,
        vb,
        "}"@,
    );
    lemma_last_two(head, json_string(a.volume_id@), ta1);
    lemma_last_two(head, json_string(b.volume_id@), tb1);
    lemma_same_rest(head, json_string(a.volume_id@) + ta1, head, json_string(b.volume_id@) + tb1);
    lemma_json_string(a.volume_id@, ta1, b.volume_id@, tb1);
    lemma_same_rest(
        id_key,
        json_number(a.ublk_device_id) + ta2,
        id_key,
        json_number(b.ublk_device_id) + tb2,
    );
    lemma_json_number(a.ublk_device_id, ta2, b.ublk_device_id, tb2);
    lemma_same_rest(over_key, ta3, over_key, tb3);
    assert(ta3.len() == va.len() + "}"@.len());
    lemma_same_rest(va, "}"@, vb, "}"@);
}

/// Requests to remove a device that differ in anything have different fingerprints.
pub proof fn law_remove_fingerprints_differ(a: RemoveDeviceRequest, b: RemoveDeviceRequest)
    requires
        fingerprint(RequestBody::RemoveDevice(a)) == fingerprint(RequestBody::RemoveDevice(b)),
    ensures
        a.device_id == b.device_id,
        device::text_view(a.volume_id) == device::text_view(b.volume_id),
        a.force == b.force,
{
    lemma_encode_injective(json_remove(a), json_remove(b));
    let head = "{\"device_id\":"@;
    let vol_key = ",\"volume_id\":"@;
    lemma_separators();
    let fa = if a.force {
        ",\"force\":true}"@
    } else {
        ",\"force\":false}"@
    };
    let fb = if b.force {
        ",\"force\":true}"@
    } else {
        ",\"force\":false}"@
    };
    let ta1 = vol_key + (json_text(device::text_view(a.volume_id)) + fa);
    let tb1 = vol_key + (json_text(device::text_view(b.volume_id)) + fb);
    lemma_regroup(
        head,
        json_number(a.device_id),
        vol_key,
        json_text(device::text_view(a.volume_id)),
        fa,
    );
    lemma_regroup(
        head,
        json_number(b.device_id),
        vol_key,
        json_text(device::text_view(b.volume_id)),
        fb,
    );
    lemma_same_rest(head, json_number(a.device_id) + ta1, head, json_number(b.device_id) + tb1);
    lemma_json_number(a.device_id, ta1, b.device_id, tb1);
    lemma_same_rest(
        vol_key,
        json_text(device::text_view(a.volume_id)) + fa,
        vol_key,
        json_text(device::text_view(b.volume_id)) + fb,
    );
    lemma_json_text(device::text_view(a.volume_id), fa, device::text_view(b.volume_id), fb);
}

} // verus!
