//! The sound applet's model of PipeWire as `wpctl` and `pw-dump` report
//! it: whether a sink or source is there, muting, the audio streams of
//! applications, and the icons.
use vstd::prelude::*;
use crate::command::Invocation;
use crate::json::{json_document, member, member_in, parse_json, text_in, text_value, unsigned_in, unsigned_value, Json};
use crate::text::{chars_of, contains_chars, contains_text, decimal, decimal_string, is_digit, lossy_text, lossy_utf8, owned, split_words, string_from_chars, text_eq, trim, trim_chars, views, words};

verus! {

/// An application's audio stream.
#[derive(Clone, Debug)]
pub struct AppStream {
    pub id: u32,
    pub name: String,
}

/// What a finished command gave: whether it succeeded, and what it printed.
#[derive(Clone, Debug)]
pub struct CommandOutput {
    pub success: bool,
    pub stdout: Vec<u8>,
}

/// What `wpctl get-volume` printed: the volume as written, and whether the
/// target is muted.
#[derive(Clone, Debug)]
pub struct VolumeText {
    pub volume: String,
    pub muted: bool,
}

/// `wpctl get-volume <target>`.
pub fn get_volume_invocation(target: &str) -> (r: Invocation)
    ensures
        r.spec_parts() == ("wpctl"@, seq!["get-volume"@, target@]),
{
    Invocation::new("wpctl").arg("get-volume").arg(target)
}

/// `wpctl set-mute <target> 1|0`.
pub fn set_mute_invocation(target: &str, muted: bool) -> (r: Invocation)
    ensures
        r.spec_parts() == ("wpctl"@, seq!["set-mute"@, target@, if muted { "1"@ } else { "0"@ }]),
{
    Invocation::new("wpctl").arg("set-mute").arg(target).arg(if muted { "1" } else { "0" })
}

/// Mutes or unmutes the default output: the command that does it.
pub fn set_mute(muted: bool) -> (r: Invocation)
    ensures
        r.spec_parts() == ("wpctl"@, seq![
            "set-mute"@,
            "@DEFAULT_AUDIO_SINK@"@,
            if muted { "1"@ } else { "0"@ },
        ]),
{
    set_mute_invocation("@DEFAULT_AUDIO_SINK@", muted)
}

/// Mutes or unmutes the default input: the command that does it.
pub fn set_source_mute(muted: bool) -> (r: Invocation)
    ensures
        r.spec_parts() == ("wpctl"@, seq![
            "set-mute"@,
            "@DEFAULT_AUDIO_SOURCE@"@,
            if muted { "1"@ } else { "0"@ },
        ]),
{
    set_mute_invocation("@DEFAULT_AUDIO_SOURCE@", muted)
}

/// The `wpctl` target of an application's stream: its id in decimal.
pub fn stream_target(id: u32) -> (r: String)
    ensures
        r@ == decimal(id as nat),
{
    decimal_string(id as u64)
}

pub open spec fn opt_volume_text(v: Option<VolumeText>) -> Option<(Seq<char>, bool)> {
    match v {
        Some(t) => Some((t.volume@, t.muted)),
        None => None,
    }
}

/// What `wpctl get-volume` printed, read: the output trimmed; muted when it
/// contains `[MUTED]`; the volume is its second word. None when there is
/// no second word.
pub open spec fn spec_volume_text(out: Seq<char>) -> Option<(Seq<char>, bool)> {
    let line = trim(out);
    if words(line).len() >= 2 {
        Some((words(line)[1], contains_text(line, "[MUTED]"@)))
    } else {
        None
    }
}

/// Reads what `wpctl get-volume` printed.
pub fn parse_volume_output(stdout: &str) -> (r: Option<VolumeText>)
    ensures
        opt_volume_text(r) == spec_volume_text(stdout@),
{
    let cs: Vec<char> = chars_of(stdout);
    let line: Vec<char> = trim_chars(&cs);
    let marker: Vec<char> = chars_of("[MUTED]");
    let muted: bool = contains_chars(&line, &marker);
    let ws: Vec<Vec<char>> = split_words(&line);
    if ws.len() >= 2 {
        proof {
            assert(views(ws@)[1] == ws@[1]@);
        }
        Some(VolumeText { volume: string_from_chars(&ws[1]), muted })
    } else {
        None
    }
}

pub open spec fn is_sign(c: char) -> bool {
    c == '+' || c == '-'
}

pub open spec fn unsigned_part(s: Seq<char>) -> Seq<char> {
    if s.len() > 0 && is_sign(s[0]) {
        s.drop_first()
    } else {
        s
    }
}

pub open spec fn ascii_lower(c: char) -> char {
    if 'A' <= c && c <= 'Z' {
        ((c as u32) + 32) as char
    } else {
        c
    }
}

pub open spec fn all_digit_chars(s: Seq<char>) -> bool {
    forall|i: int| 0 <= i < s.len() ==> is_digit(s[i])
}

/// `Digit+`, `Digit+ '.' Digit*` or `Digit* '.' Digit+`.
pub open spec fn is_mantissa(m: Seq<char>) -> bool {
    ||| (m.len() > 0 && all_digit_chars(m))
    ||| (m.len() >= 2 && exists|d: int|
        0 <= d < m.len() && m[d] == '.' && all_digit_chars(m.take(d)) && all_digit_chars(
            m.skip(d + 1),
        ))
}

/// `Sign? Digit+`.
pub open spec fn is_exponent(x: Seq<char>) -> bool {
    unsigned_part(x).len() > 0 && all_digit_chars(unsigned_part(x))
}

/// `inf`, `infinity` or `nan`, in any case.
pub open spec fn is_special_float(b: Seq<char>) -> bool {
    let l = b.map_values(|c: char| ascii_lower(c));
    l == "inf"@ || l == "infinity"@ || l == "nan"@
}

/// The texts that `f64::from_str` accepts, by the grammar its documentation
/// gives: `Sign? ('inf' | 'infinity' | 'nan' | Number)` with
/// `Number ::= Mantissa (('e' | 'E') Sign? Digit+)?`, letters in any case.
pub open spec fn float_syntax(s: Seq<char>) -> bool {
    let b = unsigned_part(s);
    ||| is_special_float(b)
    ||| is_mantissa(b)
    ||| exists|e: int|
        0 <= e < b.len() && (b[e] == 'e' || b[e] == 'E') && is_mantissa(b.take(e)) && is_exponent(
            b.skip(e + 1),
        )
}

fn is_digit_char(c: char) -> (r: bool)
    ensures
        r == is_digit(c),
{
    '0' <= c && c <= '9'
}

fn digits_in(s: &Vec<char>, from: usize, to: usize) -> (r: bool)
    requires
        from <= to <= s.len(),
    ensures
        r == all_digit_chars(s@.subrange(from as int, to as int)),
{
    let mut k: usize = from;
    while k < to
        invariant
            from <= k <= to <= s.len(),
            forall|i: int| from <= i < k ==> is_digit(s@[i]),
        decreases to - k,
    {
        if !is_digit_char(s[k]) {
            assert(s@.subrange(from as int, to as int)[k - from] == s@[k as int]);
            return false;
        }
        k = k + 1;
    }
    assert forall|i: int| 0 <= i < to - from implies is_digit(
        s@.subrange(from as int, to as int)[i],
    ) by {
        assert(s@.subrange(from as int, to as int)[i] == s@[from + i]);
    }
    true
}

fn mantissa_in(s: &Vec<char>, from: usize, to: usize) -> (r: bool)
    requires
        from <= to <= s.len(),
    ensures
        r == is_mantissa(s@.subrange(from as int, to as int)),
{
    let ghost m = s@.subrange(from as int, to as int);
    if to == from {
        return false;
    }
    if digits_in(s, from, to) {
        return true;
    }
    let mut d: usize = from;
    while d < to && s[d] != '.'
        invariant
            from <= d <= to <= s.len(),
            forall|i: int| from <= i < d ==> s@[i] != '.',
        decreases to - d,
    {
        d = d + 1;
    }
    if to - from < 2 {
        return false;
    }
    if d == to {
        proof {
            assert forall|x: int| 0 <= x < m.len() && m[x] == '.' implies false by {
                assert(m[x] == s@[from + x]);
            }
        }
        return false;
    }
    let left: bool = digits_in(s, from, d);
    let right: bool = digits_in(s, d + 1, to);
    proof {
        assert(m[d - from] == '.');
        assert(m.take(d - from) =~= s@.subrange(from as int, d as int));
        assert(m.skip(d - from + 1) =~= s@.subrange(d + 1, to as int));
        assert forall|x: int|
            0 <= x < m.len() && m[x] == '.' && all_digit_chars(m.take(x)) && all_digit_chars(
                m.skip(x + 1),
            ) implies x == d - from by {
            assert(m[x] == s@[from + x]);
            if x > d - from {
                assert(m.take(x)[d - from] == '.');
            } else if x < d - from {
                assert(s@[from + x] != '.');
            }
        }
    }
    left && right
}

fn exponent_in(s: &Vec<char>, from: usize, to: usize) -> (r: bool)
    requires
        from <= to <= s.len(),
    ensures
        r == is_exponent(s@.subrange(from as int, to as int)),
{
    let ghost x = s@.subrange(from as int, to as int);
    if from < to && (s[from] == '+' || s[from] == '-') {
        proof {
            assert(x[0] == s@[from as int]);
            assert(unsigned_part(x) =~= s@.subrange(from + 1, to as int));
        }
        from + 1 < to && digits_in(s, from + 1, to)
    } else {
        proof {
            if from < to {
                assert(x[0] == s@[from as int]);
            }
            assert(unsigned_part(x) == x);
        }
        from < to && digits_in(s, from, to)
    }
}

fn special_in(s: &Vec<char>, from: usize) -> (r: bool)
    requires
        from <= s.len(),
    ensures
        r == is_special_float(s@.skip(from as int)),
{
    let mut l: Vec<char> = Vec::new();
    let mut k: usize = from;
    while k < s.len()
        invariant
            from <= k <= s.len(),
            l@ == s@.subrange(from as int, k as int).map_values(|c: char| ascii_lower(c)),
        decreases s.len() - k,
    {
        let c: char = s[k];
        let lc: char = if 'A' <= c && c <= 'Z' { lower_of(c) } else { c };
        l.push(lc);
        proof {
            assert(s@.subrange(from as int, k + 1).map_values(|c: char| ascii_lower(c))
                =~= s@.subrange(from as int, k as int).map_values(|c: char| ascii_lower(c)).push(
                lc,
            ));
        }
        k = k + 1;
    }
    proof {
        assert(s@.subrange(from as int, s.len() as int) =~= s@.skip(from as int));
    }
    crate::text::chars_eq_str(&l, "inf") || crate::text::chars_eq_str(&l, "infinity")
        || crate::text::chars_eq_str(&l, "nan")
}

fn lower_of(c: char) -> (r: char)
    requires
        'A' <= c <= 'Z',
    ensures
        r == ((c as u32) + 32) as char,
{
    let code: u32 = c as u32;
    let b: u8 = (code + 32) as u8;
    b as char
}

/// Whether `f64::from_str` accepts `s`: its syntax by the documented grammar.
pub fn is_float_text(s: &str) -> (r: bool)
    ensures
        r == float_syntax(s@),
{
    let cs: Vec<char> = chars_of(s);
    let n: usize = cs.len();
    let start: usize = if n > 0 && (cs[0] == '+' || cs[0] == '-') { 1 } else { 0 };
    let ghost b = unsigned_part(s@);
    proof {
        assert(b =~= cs@.skip(start as int));
        assert(b =~= cs@.subrange(start as int, n as int));
    }
    if special_in(&cs, start) {
        return true;
    }
    if mantissa_in(&cs, start, n) {
        return true;
    }
    let mut e: usize = start;
    while e < n && cs[e] != 'e' && cs[e] != 'E'
        invariant
            start <= e <= n == cs.len(),
            forall|i: int| start <= i < e ==> cs@[i] != 'e' && cs@[i] != 'E',
        decreases n - e,
    {
        e = e + 1;
    }
    if e == n {
        proof {
            assert forall|x: int| 0 <= x < b.len() && (b[x] == 'e' || b[x] == 'E') implies false by {
                assert(b[x] == cs@[start + x]);
            }
        }
        return false;
    }
    let m: bool = mantissa_in(&cs, start, e);
    let x: bool = exponent_in(&cs, e + 1, n);
    proof {
        let k = e - start;
        assert(b.take(k) =~= cs@.subrange(start as int, e as int));
        assert(b.skip(k + 1) =~= cs@.subrange(e + 1, n as int));
        assert(b[k] == cs@[e as int]);
        assert forall|y: int|
            0 <= y < b.len() && (b[y] == 'e' || b[y] == 'E') && is_mantissa(b.take(y))
                && is_exponent(b.skip(y + 1)) implies y == k by {
            assert(b[y] == cs@[start + y]);
            if y > k {
                let t = b.take(y);
                assert(t[k] == b[k]);
                assert(!all_digit_chars(t));
                assert forall|d: int|
                    0 <= d < t.len() && t[d] == '.' && all_digit_chars(t.take(d))
                        && all_digit_chars(t.skip(d + 1)) implies false by {
                    if k < d {
                        assert(t.take(d)[k] == t[k]);
                    } else if k > d {
                        assert(t.skip(d + 1)[k - d - 1] == t[k]);
                    }
                }
            }
        }
    }
    m && x
}

/// Whether a `wpctl get-volume` run reports a volume: it ran, succeeded,
/// and printed a second word that reads as a float.
pub open spec fn spec_reports_volume(output: Option<CommandOutput>) -> bool {
    match output {
        Some(o) => o.success && match spec_volume_text(lossy_utf8(o.stdout@)) {
            Some(v) => float_syntax(v.0),
            None => false,
        },
        None => false,
    }
}

fn reports_volume(output: &Option<CommandOutput>) -> (r: bool)
    ensures
        r == spec_reports_volume(*output),
{
    match output {
        Some(o) => {
            if !o.success {
                return false;
            }
            let text: String = lossy_text(&o.stdout);
            match parse_volume_output(text.as_str()) {
                Some(v) => is_float_text(v.volume.as_str()),
                None => false,
            }
        },
        None => false,
    }
}

/// Whether there is a default output, from the run of
/// `wpctl get-volume @DEFAULT_AUDIO_SINK@` (none when it could not run).
pub fn is_available(output: &Option<CommandOutput>) -> (r: bool)
    ensures
        r == spec_reports_volume(*output),
{
    reports_volume(output)
}

/// Whether there is a default input, from the run of
/// `wpctl get-volume @DEFAULT_AUDIO_SOURCE@` (none when it could not run).
pub fn is_source_available(output: &Option<CommandOutput>) -> (r: bool)
    ensures
        r == spec_reports_volume(*output),
{
    reports_volume(output)
}

/// A PipeWire node as `pw-dump` lists it, with the fields the applet reads.
#[derive(Clone, Debug)]
pub struct PwNode {
    /// `id`, when it is an unsigned integer.
    pub id: Option<u64>,
    /// `info.state`, when it is a string.
    pub state: Option<String>,
    /// `info.props["media.class"]`.
    pub media_class: Option<String>,
    /// `info.props["application.name"]`.
    pub application_name: Option<String>,
    /// `info.props["node.description"]`.
    pub node_description: Option<String>,
    /// `info.props["node.name"]`.
    pub node_name: Option<String>,
}

pub open spec fn opt_view(t: Option<String>) -> Option<Seq<char>> {
    match t {
        Some(s) => Some(s@),
        None => None,
    }
}

/// A stream's name: the application's name, else the node's description,
/// else its name, else `Unknown`.
pub open spec fn stream_name(n: PwNode) -> Seq<char> {
    match n.application_name {
        Some(a) => a@,
        None => match n.node_description {
            Some(d) => d@,
            None => match n.node_name {
                Some(m) => m@,
                None => "Unknown"@,
            },
        },
    }
}

/// The stream a node is, when it is an application's audio output that is
/// running and has an id (taken modulo 2^32, as a `u32` cast takes it).
pub open spec fn node_stream(n: PwNode) -> Option<(u32, Seq<char>)> {
    if opt_view(n.media_class) == Some("Stream/Output/Audio"@) && opt_view(n.state) == Some(
        "running"@,
    ) && n.id is Some {
        Some(((n.id->0) as u32, stream_name(n)))
    } else {
        None
    }
}

pub open spec fn app_streams_of(nodes: Seq<PwNode>) -> Seq<(u32, Seq<char>)>
    decreases nodes.len(),
{
    if nodes.len() == 0 {
        seq![]
    } else {
        let rest = app_streams_of(nodes.drop_last());
        match node_stream(nodes.last()) {
            Some(s) => rest.push(s),
            None => rest,
        }
    }
}

pub open spec fn stream_views(v: Seq<AppStream>) -> Seq<(u32, Seq<char>)> {
    v.map_values(|s: AppStream| (s.id, s.name@))
}

fn opt_is(t: &Option<String>, want: &str) -> (r: bool)
    ensures
        r == (opt_view(*t) == Some(want@)),
{
    match t {
        Some(s) => text_eq(s.as_str(), want),
        None => false,
    }
}

fn node_stream_exec(n: &PwNode) -> (r: Option<AppStream>)
    ensures
        match r {
            Some(s) => node_stream(*n) == Some((s.id, s.name@)),
            None => node_stream(*n) is None,
        },
{
    if !opt_is(&n.media_class, "Stream/Output/Audio") || !opt_is(&n.state, "running") {
        return None;
    }
    let id: u64 = match n.id {
        Some(v) => v,
        None => {
            return None;
        },
    };
    let name: String = match &n.application_name {
        Some(a) => a.clone(),
        None => match &n.node_description {
            Some(d) => d.clone(),
            None => match &n.node_name {
                Some(m) => m.clone(),
                None => owned("Unknown"),
            },
        },
    };
    Some(AppStream { id: id as u32, name })
}

/// The applications' audio streams among the nodes `pw-dump` listed, in
/// its order.
pub fn app_streams(nodes: &Vec<PwNode>) -> (r: Vec<AppStream>)
    ensures
        stream_views(r@) == app_streams_of(nodes@),
{
    let mut r: Vec<AppStream> = Vec::new();
    let mut k: usize = 0;
    while k < nodes.len()
        invariant
            k <= nodes.len(),
            stream_views(r@) == app_streams_of(nodes@.take(k as int)),
        decreases nodes.len() - k,
    {
        proof {
            assert(nodes@.take(k + 1).drop_last() =~= nodes@.take(k as int));
            assert(nodes@.take(k + 1).last() == nodes@[k as int]);
        }
        let ghost before = r@;
        match node_stream_exec(&nodes[k]) {
            Some(s) => {
                r.push(s);
                proof {
                    assert(stream_views(r@) =~= stream_views(before).push((s.id, s.name@)));
                }
            },
            None => {},
        }
        k = k + 1;
    }
    proof {
        assert(nodes@.take(k as int) =~= nodes@);
    }
    r
}

/// The node an entry of `pw-dump`'s array describes: `id`, `info.state`,
/// and the properties under `info.props`.
pub open spec fn pw_node_of(item: Json) -> PwNode {
    let info = member_in(Some(item), "info"@);
    let props = member_in(info, "props"@);
    PwNode {
        id: unsigned_in(member_in(Some(item), "id"@)),
        state: text_in(member_in(info, "state"@)),
        media_class: text_in(member_in(props, "media.class"@)),
        application_name: text_in(member_in(props, "application.name"@)),
        node_description: text_in(member_in(props, "node.description"@)),
        node_name: text_in(member_in(props, "node.name"@)),
    }
}

/// The nodes of a `pw-dump` document: one per entry of its top-level
/// array, none where it is not an array.
pub open spec fn pw_nodes_of(doc: Json) -> Seq<PwNode> {
    match doc {
        Json::Array(items) => items@.map_values(|item: Json| pw_node_of(item)),
        _ => seq![],
    }
}

fn pw_node(item: &Json) -> (r: PwNode)
    ensures
        r == pw_node_of(*item),
{
    let info = member(Some(item), "info");
    let props = member(info, "props");
    PwNode {
        id: unsigned_value(member(Some(item), "id")),
        state: text_value(member(info, "state")),
        media_class: text_value(member(props, "media.class")),
        application_name: text_value(member(props, "application.name")),
        node_description: text_value(member(props, "node.description")),
        node_name: text_value(member(props, "node.name")),
    }
}

/// The nodes a `pw-dump` document lists, in its order.
pub fn pw_nodes(doc: &Json) -> (r: Vec<PwNode>)
    ensures
        r@ == pw_nodes_of(*doc),
{
    let mut r: Vec<PwNode> = Vec::new();
    let items: &Vec<Json> = match doc {
        Json::Array(items) => items,
        _ => {
            return r;
        },
    };
    let mut k: usize = 0;
    while k < items.len()
        invariant
            k <= items.len(),
            *doc == Json::Array(*items),
            r@ == items@.take(k as int).map_values(|item: Json| pw_node_of(item)),
        decreases items.len() - k,
    {
        r.push(pw_node(&items[k]));
        proof {
            assert(items@.take(k + 1).map_values(|item: Json| pw_node_of(item)) =~= r@);
        }
        k = k + 1;
    }
    proof {
        assert(items@.take(k as int) =~= items@);
    }
    r
}

/// `pw-dump`, which lists PipeWire's objects as JSON.
pub fn pw_dump_invocation() -> (r: Invocation)
    ensures
        r.spec_parts() == ("pw-dump"@, Seq::<Seq<char>>::empty()),
{
    Invocation::new("pw-dump")
}

/// The application streams a run of `pw-dump` reports: none where it could
/// not run, failed, or printed no JSON document.
pub open spec fn spec_listed_streams(output: Option<CommandOutput>) -> Seq<(u32, Seq<char>)> {
    match output {
        Some(o) => if o.success {
            match json_document(o.stdout@) {
                Some(doc) => app_streams_of(pw_nodes_of(doc)),
                None => seq![],
            }
        } else {
            seq![]
        },
        None => seq![],
    }
}

/// The applications playing sound, from the run of `pw-dump` (none when it
/// could not run).
pub fn list_app_streams(output: &Option<CommandOutput>) -> (r: Vec<AppStream>)
    ensures
        stream_views(r@) == spec_listed_streams(*output),
{
    let o: &CommandOutput = match output {
        Some(o) => o,
        None => {
            return Vec::new();
        },
    };
    if !o.success {
        return Vec::new();
    }
    match parse_json(o.stdout.as_slice()) {
        Some(doc) => app_streams(&pw_nodes(&doc)),
        None => Vec::new(),
    }
}

/// The icon of the output's mute button.
pub fn mute_icon_name(muted: bool) -> (r: &'static str)
    ensures
        r@ == if muted { "audio-volume-muted-symbolic"@ } else { "audio-volume-high-symbolic"@ },
{
    if muted {
        "audio-volume-muted-symbolic"
    } else {
        "audio-volume-high-symbolic"
    }
}

/// The icon of the microphone's mute button.
pub fn mic_icon_name(muted: bool) -> (r: &'static str)
    ensures
        r@ == if muted {
            "microphone-sensitivity-muted-symbolic"@
        } else {
            "microphone-sensitivity-high-symbolic"@
        },
{
    if muted {
        "microphone-sensitivity-muted-symbolic"
    } else {
        "microphone-sensitivity-high-symbolic"
    }
}

} // verus!
