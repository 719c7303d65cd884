//! Codec definitions and management.

use vstd::prelude::*;
use vstd::string::*;
use crate::numeral::{decimal, decimal_string, push_decimal};
use crate::order::{sort_stable, stable_sort, Keyed};
use crate::text::{append_str, eq_ignore_case, join, str_eq_ignore_case, string_of, string_views};

verus! {

/// Audio codec with RTP payload type.
#[derive(Debug, Clone, PartialEq, Eq)]
pub struct Codec {
    /// Codec name
    pub name: String,
    /// RTP payload type (0-127)
    pub payload_type: u8,
    /// Clock rate in Hz
    pub clock_rate: u32,
    /// Number of audio channels (typically 1)
    pub channels: u8,
    /// Codec description
    pub description: String,
    /// Whether this codec is currently enabled
    pub enabled: bool,
    /// Whether this is a standard codec (cannot be uninstalled)
    pub is_standard: bool,
    /// Priority/order for codec negotiation (lower number = higher priority)
    /// If None, uses position in the list
    pub priority: Option<u32>,
}

/// The text of an `a=rtpmap` attribute: `pt name/rate`, and `/channels` for
/// more than one channel.
pub open spec fn rtpmap_text(c: Codec) -> Seq<char> {
    let head = decimal(c.payload_type as nat) + seq![' '] + c.name@ + seq!['/'] + decimal(
        c.clock_rate as nat,
    );
    if c.channels > 1 {
        head + seq!['/'] + decimal(c.channels as nat)
    } else {
        head
    }
}

/// The text that describes a codec: `name (PT: pt, rateHz, nch)`.
pub open spec fn codec_text(c: Codec) -> Seq<char> {
    c.name@ + " (PT: "@ + decimal(c.payload_type as nat) + ", "@ + decimal(c.clock_rate as nat)
        + "Hz, "@ + decimal(c.channels as nat) + "ch)"@
}

impl Keyed for Codec {
    /// A codec with a priority comes before every codec without one.
    open spec fn key(&self) -> u64 {
        match self.priority {
            Some(p) => p as u64,
            None => 0x1_0000_0000,
        }
    }

    fn key_of(&self) -> (k: u64) {
        match self.priority {
            Some(p) => p as u64,
            None => 0x1_0000_0000,
        }
    }
}

impl<'a> Keyed for &'a Codec {
    open spec fn key(&self) -> u64 {
        (**self).key()
    }

    fn key_of(&self) -> (k: u64) {
        (**self).key_of()
    }
}

impl Codec {
    /// Create a new codec: enabled, without a priority.
    pub fn new(
        name: &str,
        payload_type: u8,
        clock_rate: u32,
        channels: u8,
        description: &str,
        is_standard: bool,
    ) -> (r: Self)
        ensures
            r.name@ == name@,
            r.payload_type == payload_type,
            r.clock_rate == clock_rate,
            r.channels == channels,
            r.description@ == description@,
            r.enabled,
            r.is_standard == is_standard,
            r.priority is None,
    {
        Codec {
            name: name.to_owned(),
            payload_type,
            clock_rate,
            channels,
            description: description.to_owned(),
            enabled: true,
            is_standard,
            priority: None,
        }
    }

    /// A copy of this codec.
    pub fn duplicate(&self) -> (r: Self)
        ensures
            r == *self,
    {
        Codec {
            name: self.name.clone(),
            payload_type: self.payload_type,
            clock_rate: self.clock_rate,
            channels: self.channels,
            description: self.description.clone(),
            enabled: self.enabled,
            is_standard: self.is_standard,
            priority: self.priority,
        }
    }

    /// Get the SDP format attribute (a=rtpmap) line.
    pub fn rtpmap(&self) -> (s: String)
        ensures
            s@ == rtpmap_text(*self),
    {
        let mut out: Vec<char> = Vec::new();
        push_decimal(&mut out, self.payload_type as u64);
        out.push(' ');
        append_str(&mut out, self.name.as_str());
        out.push('/');
        push_decimal(&mut out, self.clock_rate as u64);
        if self.channels > 1 {
            out.push('/');
            push_decimal(&mut out, self.channels as u64);
        }
        assert(out@ =~= rtpmap_text(*self));
        string_of(&out)
    }

    /// Get the SDP media format (payload type as string).
    pub fn media_format(&self) -> (s: String)
        ensures
            s@ == decimal(self.payload_type as nat),
    {
        decimal_string(self.payload_type as u64)
    }

    /// The text that describes the codec.
    pub fn to_string(&self) -> (s: String)
        ensures
            s@ == codec_text(*self),
    {
        let mut out: Vec<char> = Vec::new();
        append_str(&mut out, self.name.as_str());
        append_str(&mut out, " (PT: ");
        push_decimal(&mut out, self.payload_type as u64);
        append_str(&mut out, ", ");
        push_decimal(&mut out, self.clock_rate as u64);
        append_str(&mut out, "Hz, ");
        push_decimal(&mut out, self.channels as u64);
        append_str(&mut out, "ch)");
        assert(out@ =~= codec_text(*self));
        string_of(&out)
    }
}

/// Whether `c` is the standard codec with the given properties.
pub open spec fn is_standard_codec(
    c: Codec,
    name: Seq<char>,
    payload_type: u8,
    clock_rate: u32,
    channels: u8,
) -> bool {
    c.name@ == name && c.payload_type == payload_type && c.clock_rate == clock_rate && c.channels
        == channels && c.enabled && c.is_standard && c.priority is None
}

/// Whether `s` is the list of the standard codecs.
pub open spec fn is_standard_list(s: Seq<Codec>) -> bool {
    &&& s.len() == 10
    &&& is_standard_codec(s[0], "PCMU"@, 0, 8000, 1)
    &&& is_standard_codec(s[1], "PCMA"@, 8, 8000, 1)
    &&& is_standard_codec(s[2], "G722"@, 9, 8000, 1)
    &&& is_standard_codec(s[3], "GSM"@, 3, 8000, 1)
    &&& is_standard_codec(s[4], "G729"@, 18, 8000, 1)
    &&& is_standard_codec(s[5], "iLBC"@, 97, 8000, 1)
    &&& is_standard_codec(s[6], "opus"@, 111, 48000, 2)
    &&& is_standard_codec(s[7], "AMR"@, 96, 8000, 1)
    &&& is_standard_codec(s[8], "AMR-WB"@, 98, 16000, 1)
    &&& is_standard_codec(s[9], "SILK"@, 99, 16000, 1)
}

/// Standard audio codecs with their RTP payload types.
pub fn standard_codecs() -> (r: Vec<Codec>)
    ensures
        is_standard_list(r@),
{
    let mut v: Vec<Codec> = Vec::new();
    v.push(Codec::new("PCMU", 0, 8000, 1, "G.711 \u{3bc}-law (64 kbps)", true));
    v.push(Codec::new("PCMA", 8, 8000, 1, "G.711 A-law (64 kbps)", true));
    v.push(Codec::new("G722", 9, 8000, 1, "G.722 wideband (64 kbps)", true));
    v.push(Codec::new("GSM", 3, 8000, 1, "GSM Full Rate (13 kbps)", true));
    v.push(Codec::new("G729", 18, 8000, 1, "G.729 (8 kbps)", true));
    v.push(Codec::new("iLBC", 97, 8000, 1, "Internet Low Bitrate Codec (13.33/15.2 kbps)", true));
    v.push(Codec::new("opus", 111, 48000, 2, "Opus codec (6-510 kbps)", true));
    v.push(Codec::new("AMR", 96, 8000, 1, "Adaptive Multi-Rate narrowband (4.75-12.2 kbps)", true));
    v.push(Codec::new("AMR-WB", 98, 16000, 1, "Adaptive Multi-Rate wideband (6.6-23.85 kbps)", true));
    v.push(Codec::new("SILK", 99, 16000, 1, "Skype SILK codec (6-40 kbps)", true));
    v
}

/// Codec configuration.
#[derive(Debug, Clone)]
pub struct CodecConfig {
    /// List of available codecs
    pub codecs: Vec<Codec>,
}

/// The enabled codecs of `s`, in their order.
pub open spec fn enabled_of(s: Seq<Codec>) -> Seq<Codec>
    decreases s.len(),
{
    if s.len() == 0 {
        Seq::empty()
    } else if s.last().enabled {
        enabled_of(s.drop_last()).push(s.last())
    } else {
        enabled_of(s.drop_last())
    }
}

pub open spec fn derefs(r: Seq<&Codec>) -> Seq<Codec> {
    Seq::new(r.len(), |i: int| *r[i])
}

/// The index at or after `from` of the first codec named `name` (up to
/// ASCII case), or the number of codecs.
pub open spec fn name_index(s: Seq<Codec>, name: Seq<char>, from: int) -> int
    decreases s.len() - from,
{
    if 0 <= from < s.len() && !eq_ignore_case(s[from].name@, name) {
        name_index(s, name, from + 1)
    } else {
        from
    }
}

/// The index at or after `from` of the first codec with the payload type,
/// or the number of codecs.
pub open spec fn payload_index(s: Seq<Codec>, pt: u8, from: int) -> int
    decreases s.len() - from,
{
    if 0 <= from < s.len() && s[from].payload_type != pt {
        payload_index(s, pt, from + 1)
    } else {
        from
    }
}

pub proof fn lemma_name_index_is(s: Seq<Codec>, name: Seq<char>, from: int, r: int)
    requires
        0 <= from <= r <= s.len(),
        forall|j: int| from <= j < r ==> !eq_ignore_case(#[trigger] s[j].name@, name),
        r < s.len() ==> eq_ignore_case(s[r].name@, name),
    ensures
        name_index(s, name, from) == r,
    decreases r - from,
{
    if from < r {
        lemma_name_index_is(s, name, from + 1, r);
    }
}

pub proof fn lemma_payload_index_is(s: Seq<Codec>, pt: u8, from: int, r: int)
    requires
        0 <= from <= r <= s.len(),
        forall|j: int| from <= j < r ==> (#[trigger] s[j]).payload_type != pt,
        r < s.len() ==> s[r].payload_type == pt,
    ensures
        payload_index(s, pt, from) == r,
    decreases r - from,
{
    if from < r {
        lemma_payload_index_is(s, pt, from + 1, r);
    }
}

/// Whether no two codecs have the same payload type, so that a payload
/// type identifies a codec.
pub open spec fn unique_payloads(s: Seq<Codec>) -> bool {
    forall|i: int, j: int| 0 <= i < j < s.len() ==> s[i].payload_type != s[j].payload_type
}

/// Whether every payload type that stands in `a` stands in `b`.
pub open spec fn payloads_within(a: Seq<Codec>, b: Seq<Codec>) -> bool {
    forall|i: int|
        0 <= i < a.len() ==> exists|j: int|
            0 <= j < b.len() && b[j].payload_type == (#[trigger] a[i]).payload_type
}

/// The standard codecs have payload types of their own.
pub proof fn lemma_standard_payloads_unique(s: Seq<Codec>)
    requires
        is_standard_list(s),
    ensures
        unique_payloads(s),
{
}

/// Inserting a codec whose payload type is new keeps the payload types
/// distinct.
pub proof fn lemma_insert_keeps_payloads(t: Seq<Codec>, at: int, x: Codec)
    requires
        unique_payloads(t),
        0 <= at <= t.len(),
        forall|j: int| 0 <= j < t.len() ==> (#[trigger] t[j]).payload_type != x.payload_type,
    ensures
        unique_payloads(t.insert(at, x)),
{
    let r = t.insert(at, x);
    assert forall|i: int, j: int| 0 <= i < j < r.len() implies r[i].payload_type
        != r[j].payload_type by {
        if i < at {
            assert(r[i] == t[i]);
        } else if i > at {
            assert(r[i] == t[i - 1]);
        }
        if j < at {
            assert(r[j] == t[j]);
        } else if j > at {
            assert(r[j] == t[j - 1]);
        }
    }
}

/// Sorting keeps the payload types distinct, and brings in none.
pub proof fn lemma_sort_keeps_payloads(s: Seq<Codec>)
    requires
        unique_payloads(s),
    ensures
        unique_payloads(stable_sort(s)),
        payloads_within(stable_sort(s), s),
    decreases s.len(),
{
    if s.len() > 0 {
        let d = s.drop_last();
        let x = s.last();
        assert(unique_payloads(d)) by {
            assert forall|i: int, j: int| 0 <= i < j < d.len() implies d[i].payload_type
                != d[j].payload_type by {
                assert(d[i] == s[i] && d[j] == s[j]);
            }
        }
        lemma_sort_keeps_payloads(d);
        let t = stable_sort(d);
        let at = crate::order::position_after(t, x.key(), 0);
        crate::order::lemma_position_after(t, x.key(), 0);
        assert forall|j: int| 0 <= j < t.len() implies (#[trigger] t[j]).payload_type
            != x.payload_type by {
            let k = choose|k: int| 0 <= k < d.len() && d[k].payload_type == t[j].payload_type;
            assert(d[k] == s[k]);
            assert(s[k].payload_type != s[s.len() - 1].payload_type);
        }
        lemma_insert_keeps_payloads(t, at, x);
        let r = stable_sort(s);
        assert forall|i: int| 0 <= i < r.len() implies exists|j: int|
            0 <= j < s.len() && s[j].payload_type == (#[trigger] r[i]).payload_type by {
            if i < at {
                assert(r[i] == t[i]);
                let k = choose|k: int| 0 <= k < d.len() && d[k].payload_type == t[i].payload_type;
                assert(s[k] == d[k]);
            } else if i == at {
                assert(r[i] == x);
                assert(s[s.len() - 1] == x);
            } else {
                assert(r[i] == t[i - 1]);
                let k = choose|k: int|
                    0 <= k < d.len() && d[k].payload_type == t[i - 1].payload_type;
                assert(s[k] == d[k]);
            }
        }
    }
}

/// Removing a codec keeps the payload types distinct.
pub proof fn lemma_remove_keeps_payloads(s: Seq<Codec>, at: int)
    requires
        0 <= at < s.len(),
    ensures
        unique_payloads(s) ==> unique_payloads(s.remove(at)),
{
    if unique_payloads(s) {
        let r = s.remove(at);
        assert forall|i: int, j: int| 0 <= i < j < r.len() implies r[i].payload_type
            != r[j].payload_type by {
            let i0 = if i < at {
                i
            } else {
                i + 1
            };
            let j0 = if j < at {
                j
            } else {
                j + 1
            };
            assert(r[i] == s[i0] && r[j] == s[j0]);
        }
    }
}

/// Where no codec is found with a payload type, none has it.
pub proof fn lemma_payload_index_all(s: Seq<Codec>, pt: u8)
    requires
        payload_index(s, pt, 0) == s.len(),
    ensures
        forall|j: int| 0 <= j < s.len() ==> (#[trigger] s[j]).payload_type != pt,
{
    lemma_payload_index_from(s, pt, 0);
}

proof fn lemma_payload_index_from(s: Seq<Codec>, pt: u8, from: int)
    requires
        0 <= from <= s.len(),
    ensures
        from <= payload_index(s, pt, from) <= s.len(),
        forall|j: int| from <= j < payload_index(s, pt, from) ==> (#[trigger] s[j]).payload_type != pt,
    decreases s.len() - from,
{
    if from < s.len() && s[from].payload_type != pt {
        lemma_payload_index_from(s, pt, from + 1);
    }
}

/// The payload types of the codecs as decimal numerals.
pub open spec fn formats_of(s: Seq<Codec>) -> Seq<Seq<char>> {
    Seq::new(s.len(), |i: int| decimal(s[i].payload_type as nat))
}

/// The `a=rtpmap:` lines of the codecs.
pub open spec fn rtpmaps_of(s: Seq<Codec>) -> Seq<Seq<char>> {
    Seq::new(s.len(), |i: int| "a=rtpmap:"@ + rtpmap_text(s[i]))
}

/// The priority that the place `i` in the list gives.
pub open spec fn place_priority(i: int) -> u32 {
    if i <= 0xffff_ffff {
        i as u32
    } else {
        0xffff_ffffu32
    }
}

/// The codecs, each with the priority of its place.
pub open spec fn prioritized(s: Seq<Codec>) -> Seq<Codec> {
    Seq::new(s.len(), |i: int| Codec { priority: Some(place_priority(i)), ..s[i] })
}

/// The text of the error for a payload type that is taken.
pub open spec fn payload_taken_text(pt: u8) -> Seq<char> {
    "Codec with payload type "@ + decimal(pt as nat) + " already exists"@
}

/// The text of the error for a name that no codec has.
pub open spec fn not_found_text(name: Seq<char>) -> Seq<char> {
    "Codec '"@ + name + "' not found"@
}

/// The text of the error for an index outside the list.
pub open spec fn invalid_index_text(which: Seq<char>, index: usize) -> Seq<char> {
    "Invalid "@ + which + ": "@ + decimal(index as nat)
}

fn text3(a: &str, b: &str, c: &str) -> (s: String)
    ensures
        s@ == a@ + b@ + c@,
{
    let mut out: Vec<char> = Vec::new();
    append_str(&mut out, a);
    append_str(&mut out, b);
    append_str(&mut out, c);
    assert(out@ =~= a@ + b@ + c@);
    string_of(&out)
}

fn text2(a: &str, b: &str) -> (s: String)
    ensures
        s@ == a@ + b@,
{
    let mut out: Vec<char> = Vec::new();
    append_str(&mut out, a);
    append_str(&mut out, b);
    assert(out@ =~= a@ + b@);
    string_of(&out)
}

fn invalid_index(which: &str, index: usize) -> (s: String)
    ensures
        s@ == invalid_index_text(which@, index),
{
    let mut out: Vec<char> = Vec::new();
    append_str(&mut out, "Invalid ");
    append_str(&mut out, which);
    append_str(&mut out, ": ");
    push_decimal(&mut out, index as u64);
    assert(out@ =~= invalid_index_text(which@, index));
    string_of(&out)
}

impl CodecConfig {
    /// Create a new codec configuration with standard codecs.
    pub fn new() -> (r: Self)
        ensures
            is_standard_list(r.codecs@),
    {
        CodecConfig { codecs: standard_codecs() }
    }

    /// Get enabled codecs.
    pub fn enabled_codecs(&self) -> (r: Vec<&Codec>)
        ensures
            derefs(r@) == enabled_of(self.codecs@),
    {
        let mut out: Vec<&Codec> = Vec::new();
        let mut i: usize = 0;
        assert(self.codecs@.take(0) =~= Seq::empty());
        assert(derefs(out@) =~= Seq::empty());
        while i < self.codecs.len()
            invariant
                i <= self.codecs.len(),
                derefs(out@) == enabled_of(self.codecs@.take(i as int)),
            decreases self.codecs.len() - i,
        {
            proof {
                assert(self.codecs@.take(i + 1).drop_last() =~= self.codecs@.take(i as int));
                assert(self.codecs@.take(i + 1).last() == self.codecs@[i as int]);
            }
            if self.codecs[i].enabled {
                let ghost before = derefs(out@);
                out.push(&self.codecs[i]);
                assert(derefs(out@) =~= before.push(self.codecs@[i as int]));
            }
            i += 1;
        }
        assert(self.codecs@.take(self.codecs.len() as int) =~= self.codecs@);
        out
    }

    fn position_of_payload(&self, pt: u8) -> (i: usize)
        ensures
            i == payload_index(self.codecs@, pt, 0),
            i <= self.codecs.len(),
            i < self.codecs.len() ==> self.codecs@[i as int].payload_type == pt,
    {
        let mut i: usize = 0;
        while i < self.codecs.len()
            invariant
                i <= self.codecs.len(),
                forall|j: int| 0 <= j < i ==> (#[trigger] self.codecs@[j]).payload_type != pt,
            decreases self.codecs.len() - i,
        {
            if self.codecs[i].payload_type == pt {
                proof {
                    lemma_payload_index_is(self.codecs@, pt, 0, i as int);
                }
                return i;
            }
            i += 1;
        }
        proof {
            lemma_payload_index_is(self.codecs@, pt, 0, i as int);
        }
        i
    }

    fn position_of_name(&self, name: &str) -> (i: usize)
        ensures
            i == name_index(self.codecs@, name@, 0),
            i <= self.codecs.len(),
            i < self.codecs.len() ==> eq_ignore_case(self.codecs@[i as int].name@, name@),
    {
        let mut i: usize = 0;
        while i < self.codecs.len()
            invariant
                i <= self.codecs.len(),
                forall|j: int|
                    0 <= j < i ==> !eq_ignore_case(#[trigger] self.codecs@[j].name@, name@),
            decreases self.codecs.len() - i,
        {
            if str_eq_ignore_case(self.codecs[i].name.as_str(), name) {
                proof {
                    lemma_name_index_is(self.codecs@, name@, 0, i as int);
                }
                return i;
            }
            i += 1;
        }
        proof {
            lemma_name_index_is(self.codecs@, name@, 0, i as int);
        }
        i
    }

    /// Get codec by payload type: the first codec that has it.
    pub fn get_by_payload_type(&self, pt: u8) -> (r: Option<&Codec>)
        ensures
            match r {
                Some(c) => {
                    let i = payload_index(self.codecs@, pt, 0);
                    0 <= i < self.codecs@.len() && *c == self.codecs@[i]
                },
                None => payload_index(self.codecs@, pt, 0) == self.codecs@.len(),
            },
    {
        let i = self.position_of_payload(pt);
        if i < self.codecs.len() {
            Some(&self.codecs[i])
        } else {
            None
        }
    }

    /// Get codec by name, without regard to ASCII case: the first codec
    /// that has it.
    pub fn get_by_name(&self, name: &str) -> (r: Option<&Codec>)
        ensures
            match r {
                Some(c) => {
                    let i = name_index(self.codecs@, name@, 0);
                    0 <= i < self.codecs@.len() && *c == self.codecs@[i]
                },
                None => name_index(self.codecs@, name@, 0) == self.codecs@.len(),
            },
    {
        let i = self.position_of_name(name);
        if i < self.codecs.len() {
            Some(&self.codecs[i])
        } else {
            None
        }
    }

    fn set_enabled(&mut self, name: &str, enabled: bool) -> (found: bool)
        ensures
            unique_payloads(old(self).codecs@) ==> unique_payloads(final(self).codecs@),
            ({
                let i = name_index(old(self).codecs@, name@, 0);
                &&& found == (i < old(self).codecs@.len())
                &&& final(self).codecs@ == (if found {
                    old(self).codecs@.update(i, Codec { enabled, ..old(self).codecs@[i] })
                } else {
                    old(self).codecs@
                })
            }),
    {
        let i = self.position_of_name(name);
        if i < self.codecs.len() {
            let mut c = self.codecs.remove(i);
            c.enabled = enabled;
            self.codecs.insert(i, c);
            assert(self.codecs@ =~= old(self).codecs@.update(
                i as int,
                Codec { enabled, ..old(self).codecs@[i as int] },
            ));
            assert(unique_payloads(old(self).codecs@) ==> unique_payloads(self.codecs@)) by {
                if unique_payloads(old(self).codecs@) {
                    assert forall|a: int, b: int| 0 <= a < b < self.codecs@.len() implies self.codecs@[a].payload_type
                        != self.codecs@[b].payload_type by {
                        assert(self.codecs@[a].payload_type == old(self).codecs@[a].payload_type);
                        assert(self.codecs@[b].payload_type == old(self).codecs@[b].payload_type);
                    }
                }
            }
            true
        } else {
            false
        }
    }

    /// Enable a codec by name; tells whether there is one.
    pub fn enable_codec(&mut self, name: &str) -> (found: bool)
        ensures
            unique_payloads(old(self).codecs@) ==> unique_payloads(final(self).codecs@),
            ({
                let i = name_index(old(self).codecs@, name@, 0);
                &&& found == (i < old(self).codecs@.len())
                &&& final(self).codecs@ == (if found {
                    old(self).codecs@.update(i, Codec { enabled: true, ..old(self).codecs@[i] })
                } else {
                    old(self).codecs@
                })
            }),
    {
        self.set_enabled(name, true)
    }

    /// Disable a codec by name; tells whether there is one.
    pub fn disable_codec(&mut self, name: &str) -> (found: bool)
        ensures
            unique_payloads(old(self).codecs@) ==> unique_payloads(final(self).codecs@),
            ({
                let i = name_index(old(self).codecs@, name@, 0);
                &&& found == (i < old(self).codecs@.len())
                &&& final(self).codecs@ == (if found {
                    old(self).codecs@.update(i, Codec { enabled: false, ..old(self).codecs@[i] })
                } else {
                    old(self).codecs@
                })
            }),
    {
        self.set_enabled(name, false)
    }

    /// Add a custom codec (non-standard); refused where a codec has its
    /// payload type.
    pub fn add_codec(&mut self, codec: Codec) -> (r: Result<(), String>)
        ensures
            unique_payloads(old(self).codecs@) ==> unique_payloads(final(self).codecs@),
            match r {
                Ok(_) => payload_index(old(self).codecs@, codec.payload_type, 0) == old(
                    self,
                ).codecs@.len() && final(self).codecs@ == old(self).codecs@.push(
                    Codec { is_standard: false, ..codec },
                ),
                Err(e) => payload_index(old(self).codecs@, codec.payload_type, 0) < old(
                    self,
                ).codecs@.len() && final(self).codecs@ == old(self).codecs@ && e@
                    == payload_taken_text(codec.payload_type),
            },
    {
        let i = self.position_of_payload(codec.payload_type);
        if i < self.codecs.len() {
            let pt = codec.media_format();
            return Err(text3("Codec with payload type ", pt.as_str(), " already exists"));
        }
        let mut codec = codec;
        codec.is_standard = false;
        proof {
            crate::media::codec::lemma_payload_index_all(old(self).codecs@, codec.payload_type);
            if unique_payloads(old(self).codecs@) {
                lemma_insert_keeps_payloads(
                    old(self).codecs@,
                    old(self).codecs@.len() as int,
                    codec,
                );
                assert(old(self).codecs@.insert(old(self).codecs@.len() as int, codec)
                    =~= old(self).codecs@.push(codec));
            }
        }
        self.codecs.push(codec);
        Ok(())
    }

    /// Remove a codec (only non-standard codecs can be removed).
    pub fn remove_codec(&mut self, name: &str) -> (r: Result<(), String>)
        ensures
            unique_payloads(old(self).codecs@) ==> unique_payloads(final(self).codecs@),
            ({
                let i = name_index(old(self).codecs@, name@, 0);
                match r {
                    Ok(_) => 0 <= i < old(self).codecs@.len() && !old(self).codecs@[i].is_standard
                        && final(self).codecs@ == old(self).codecs@.remove(i),
                    Err(e) => final(self).codecs@ == old(self).codecs@ && (if 0 <= i < old(
                        self,
                    ).codecs@.len() {
                        old(self).codecs@[i].is_standard && e@ == "Cannot remove standard codecs"@
                    } else {
                        e@ == not_found_text(name@)
                    }),
                }
            }),
    {
        let i = self.position_of_name(name);
        if i < self.codecs.len() {
            if self.codecs[i].is_standard {
                return Err("Cannot remove standard codecs".to_owned());
            }
            let _ = self.codecs.remove(i);
            proof {
                lemma_remove_keeps_payloads(old(self).codecs@, i as int);
            }
            Ok(())
        } else {
            Err(text3("Codec '", name, "' not found"))
        }
    }

    /// Get SDP format line for all enabled codecs: their payload types with
    /// a space between neighbours.
    pub fn sdp_formats(&self) -> (s: String)
        ensures
            s@ == join(formats_of(enabled_of(self.codecs@)), seq![' ']),
    {
        let enabled = self.enabled_codecs();
        let ghost e = enabled_of(self.codecs@);
        let mut out: Vec<char> = Vec::new();
        let mut i: usize = 0;
        assert(formats_of(e).take(0) =~= Seq::empty());
        while i < enabled.len()
            invariant
                i <= enabled.len(),
                derefs(enabled@) == e,
                out@ == join(formats_of(e).take(i as int), seq![' ']),
            decreases enabled.len() - i,
        {
            let ghost before = out@;
            if i > 0 {
                out.push(' ');
            }
            assert(e[i as int] == *enabled@[i as int]);
            push_decimal(&mut out, enabled[i].payload_type as u64);
            proof {
                let f = formats_of(e);
                assert(f.take(i + 1).drop_last() =~= f.take(i as int));
                assert(f.take(i + 1).last() == decimal(e[i as int].payload_type as nat));
                if i == 0 {
                    assert(out@ =~= f.take(1)[0]);
                } else {
                    assert(out@ =~= before + seq![' '] + f.take(i + 1).last());
                }
            }
            i += 1;
        }
        assert(formats_of(e).take(enabled.len() as int) =~= formats_of(e));
        string_of(&out)
    }

    /// Get SDP rtpmap attributes for all enabled codecs.
    pub fn sdp_rtpmaps(&self) -> (r: Vec<String>)
        ensures
            string_views(r@) == rtpmaps_of(enabled_of(self.codecs@)),
    {
        let enabled = self.enabled_codecs();
        let ghost e = enabled_of(self.codecs@);
        let mut out: Vec<String> = Vec::new();
        let mut i: usize = 0;
        while i < enabled.len()
            invariant
                i <= enabled.len(),
                derefs(enabled@) == e,
                out@.len() == i,
                forall|j: int| 0 <= j < i ==> (#[trigger] out@[j])@ == rtpmaps_of(e)[j],
            decreases enabled.len() - i,
        {
            assert(e[i as int] == *enabled@[i as int]);
            let map = enabled[i].rtpmap();
            out.push(text2("a=rtpmap:", map.as_str()));
            assert(out@[i as int]@ =~= rtpmaps_of(e)[i as int]);
            i += 1;
        }
        assert(string_views(out@) =~= rtpmaps_of(e));
        out
    }

    /// Reorder codecs by moving a codec to a new position; the codecs then
    /// get the priorities of their places.
    pub fn reorder_codec(&mut self, from_index: usize, to_index: usize) -> (r: Result<(), String>)
        ensures
            unique_payloads(old(self).codecs@) ==> unique_payloads(final(self).codecs@),
            match r {
                Ok(_) => from_index < old(self).codecs@.len() && to_index < old(self).codecs@.len()
                    && final(self).codecs@ == (if from_index == to_index {
                    old(self).codecs@
                } else {
                    prioritized(
                        old(self).codecs@.remove(from_index as int).insert(
                            to_index as int,
                            old(self).codecs@[from_index as int],
                        ),
                    )
                }),
                Err(e) => final(self).codecs@ == old(self).codecs@ && (if from_index >= old(
                    self,
                ).codecs@.len() {
                    e@ == invalid_index_text("from_index"@, from_index)
                } else {
                    to_index >= old(self).codecs@.len() && e@ == invalid_index_text(
                        "to_index"@,
                        to_index,
                    )
                }),
            },
    {
        if from_index >= self.codecs.len() {
            return Err(invalid_index("from_index", from_index));
        }
        if to_index >= self.codecs.len() {
            return Err(invalid_index("to_index", to_index));
        }
        if from_index != to_index {
            let codec = self.codecs.remove(from_index);
            proof {
                let all = old(self).codecs@;
                lemma_remove_keeps_payloads(all, from_index as int);
                if unique_payloads(all) {
                    assert forall|j: int| 0 <= j < self.codecs@.len() implies (
                    #[trigger] self.codecs@[j]).payload_type != codec.payload_type by {
                        let j0 = if j < from_index {
                            j
                        } else {
                            j + 1
                        };
                        assert(self.codecs@[j] == all[j0]);
                    }
                    lemma_insert_keeps_payloads(self.codecs@, to_index as int, codec);
                }
            }
            self.codecs.insert(to_index, codec);
            self.update_priorities();
        }
        Ok(())
    }

    /// Update priorities based on current order in the list.
    pub fn update_priorities(&mut self)
        ensures
            final(self).codecs@ == prioritized(old(self).codecs@),
            unique_payloads(old(self).codecs@) ==> unique_payloads(final(self).codecs@),
    {
        let mut rest: Vec<Codec> = Vec::new();
        core::mem::swap(&mut rest, &mut self.codecs);
        let ghost all = rest@;
        while rest.len() > 0
            invariant
                self.codecs@.len() + rest@.len() == all.len(),
                rest@ == all.skip(self.codecs@.len() as int),
                forall|j: int|
                    0 <= j < self.codecs@.len() ==> #[trigger] self.codecs@[j] == prioritized(
                        all,
                    )[j],
            decreases rest.len(),
        {
            let n = self.codecs.len();
            assert(rest@[0] == all[n as int]);
            let mut c = rest.remove(0);
            assert(rest@ =~= all.skip(n + 1));
            c.priority = Some(
                if n <= 0xffff_ffff {
                    n as u32
                } else {
                    0xffff_ffff
                },
            );
            self.codecs.push(c);
        }
        assert(self.codecs@ =~= prioritized(all));
        assert(unique_payloads(all) ==> unique_payloads(prioritized(all))) by {
            if unique_payloads(all) {
                assert forall|a: int, b: int| 0 <= a < b < all.len() implies prioritized(
                    all,
                )[a].payload_type != prioritized(all)[b].payload_type by {
                    assert(prioritized(all)[a].payload_type == all[a].payload_type);
                    assert(prioritized(all)[b].payload_type == all[b].payload_type);
                }
            }
        }
    }

    /// Sort codecs by priority (lower number = higher priority); codecs
    /// without a priority come last, and codecs of equal priority keep their
    /// order.
    pub fn sort_by_priority(&mut self)
        ensures
            final(self).codecs@ == stable_sort(old(self).codecs@),
            unique_payloads(old(self).codecs@) ==> unique_payloads(final(self).codecs@),
    {
        proof {
            if unique_payloads(self.codecs@) {
                lemma_sort_keeps_payloads(self.codecs@);
            }
        }
        sort_stable(&mut self.codecs);
    }

    /// Get the enabled codecs in priority order.
    pub fn get_priority_ordered(&self) -> (r: Vec<&Codec>)
        ensures
            exists|e: Seq<&Codec>|
                derefs(e) == enabled_of(self.codecs@) && r@ == stable_sort(e),
    {
        let mut enabled = self.enabled_codecs();
        sort_stable(&mut enabled);
        enabled
    }
}

impl Default for CodecConfig {
    fn default() -> (r: Self)
        ensures
            is_standard_list(r.codecs@),
    {
        CodecConfig::new()
    }
}

} // verus!
