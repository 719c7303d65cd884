//! SDP (Session Description Protocol) handling.

use vstd::prelude::*;
use vstd::string::*;
use crate::numeral::{decimal, parse_number, parse_unsigned, push_decimal};
use crate::text::{
    append_str, chars_of, lines, matches_at, occurs_at, slice_of, split_lines, split_words,
    string_of, string_views, trim, trim_chars, views, words,
};

verus! {

/// Why a text is no session description.
#[derive(Debug, Clone, Copy, PartialEq, Eq, Structural)]
pub enum SdpError {
    /// The `v=` line holds no number of at most 255.
    InvalidVersion,
    /// An `m=` line holds no port of at most 65535.
    InvalidPort,
}

impl SdpError {
    /// A description of the error.
    pub fn message(&self) -> (s: String)
        ensures
            s@ == (match self {
                SdpError::InvalidVersion => "Invalid SDP version"@,
                SdpError::InvalidPort => "Invalid SDP media port"@,
            }),
    {
        match self {
            SdpError::InvalidVersion => "Invalid SDP version".to_owned(),
            SdpError::InvalidPort => "Invalid SDP media port".to_owned(),
        }
    }
}

/// One media section: its `m=` line and the attributes that follow it.
#[derive(Debug, Clone)]
pub struct MediaDescription {
    /// audio, video
    pub media_type: String,
    pub port: u16,
    /// RTP/AVP, RTP/SAVP
    pub protocol: String,
    pub formats: Vec<u8>,
    /// The `a=` lines of the section, each without `a=`, verbatim
    pub attributes: Vec<String>,
}

/// What a media section holds.
pub struct MediaView {
    pub media_type: Seq<char>,
    pub port: u16,
    pub protocol: Seq<char>,
    pub formats: Seq<u8>,
    pub attributes: Seq<Seq<char>>,
}

impl View for MediaDescription {
    type V = MediaView;

    open spec fn view(&self) -> MediaView {
        MediaView {
            media_type: self.media_type@,
            port: self.port,
            protocol: self.protocol@,
            formats: self.formats@,
            attributes: string_views(self.attributes@),
        }
    }
}

/// An SDP session description: the session lines and the media sections.
#[derive(Debug, Clone)]
pub struct SdpSession {
    pub version: u8,
    pub origin: String,
    pub session_name: String,
    pub connection: Option<String>,
    pub media: Vec<MediaDescription>,
}

/// What a session description holds.
pub struct SdpView {
    pub version: u8,
    pub origin: Seq<char>,
    pub session_name: Seq<char>,
    pub connection: Option<Seq<char>>,
    pub media: Seq<MediaView>,
}

pub open spec fn media_views(m: Seq<MediaDescription>) -> Seq<MediaView> {
    Seq::new(m.len(), |i: int| m[i]@)
}

impl View for SdpSession {
    type V = SdpView;

    open spec fn view(&self) -> SdpView {
        SdpView {
            version: self.version,
            origin: self.origin@,
            session_name: self.session_name@,
            connection: match self.connection {
                Some(c) => Some(c@),
                None => None,
            },
            media: media_views(self.media@),
        }
    }
}

/// The description that nothing was read into.
pub open spec fn empty_sdp() -> SdpView {
    SdpView {
        version: 0,
        origin: Seq::empty(),
        session_name: Seq::empty(),
        connection: None,
        media: Seq::empty(),
    }
}

/// The payload types among the parts: the parts that are numbers of at
/// most 255, in order.
pub open spec fn formats_in(parts: Seq<Seq<char>>) -> Seq<u8>
    decreases parts.len(),
{
    if parts.len() == 0 {
        Seq::empty()
    } else {
        match parse_unsigned(parts.last(), 255) {
            Some(n) => formats_in(parts.drop_last()).push(n as u8),
            None => formats_in(parts.drop_last()),
        }
    }
}

/// What follows the two characters of a line's tag.
pub open spec fn after_tag(line: Seq<char>) -> Seq<char> {
    if line.len() >= 2 {
        line.skip(2)
    } else {
        Seq::empty()
    }
}

/// The description after one more line, given without the white space
/// around it.
///
/// `v=`, `o=`, `s=` and `c=` set the version, origin, session name and
/// connection. `m=type port protocol formats...` opens a media section; with
/// fewer than three parts it is passed over. `a=` adds an attribute to the
/// section that is open. Every other line is passed over.
pub open spec fn sdp_line(acc: SdpView, line: Seq<char>) -> Result<SdpView, SdpError> {
    let content = after_tag(line);
    if occurs_at(line, "v="@, 0) {
        match parse_unsigned(content, 255) {
            Some(n) => Ok(SdpView { version: n as u8, ..acc }),
            None => Err(SdpError::InvalidVersion),
        }
    } else if occurs_at(line, "o="@, 0) {
        Ok(SdpView { origin: content, ..acc })
    } else if occurs_at(line, "s="@, 0) {
        Ok(SdpView { session_name: content, ..acc })
    } else if occurs_at(line, "c="@, 0) {
        Ok(SdpView { connection: Some(content), ..acc })
    } else if occurs_at(line, "m="@, 0) {
        let parts = words(content);
        if parts.len() >= 3 {
            match parse_unsigned(parts[1], 65535) {
                Some(port) => Ok(
                    SdpView {
                        media: acc.media.push(
                            MediaView {
                                media_type: parts[0],
                                port: port as u16,
                                protocol: parts[2],
                                formats: formats_in(parts.skip(3)),
                                attributes: Seq::empty(),
                            },
                        ),
                        ..acc
                    },
                ),
                None => Err(SdpError::InvalidPort),
            }
        } else {
            Ok(acc)
        }
    } else if occurs_at(line, "a="@, 0) && acc.media.len() > 0 {
        Ok(
            SdpView {
                media: acc.media.update(
                    acc.media.len() - 1,
                    MediaView {
                        attributes: acc.media.last().attributes.push(content),
                        ..acc.media.last()
                    },
                ),
                ..acc
            },
        )
    } else {
        Ok(acc)
    }
}

/// The description that the lines give, read in order; the first error
/// ends the reading.
pub open spec fn sdp_of_lines(ls: Seq<Seq<char>>) -> Result<SdpView, SdpError>
    decreases ls.len(),
{
    if ls.len() == 0 {
        Ok(empty_sdp())
    } else {
        match sdp_of_lines(ls.drop_last()) {
            Err(e) => Err(e),
            Ok(acc) => sdp_line(acc, trim(ls.last())),
        }
    }
}

/// The description that a text gives.
pub open spec fn parse_sdp(s: Seq<char>) -> Result<SdpView, SdpError> {
    sdp_of_lines(lines(s))
}

/// The payload types with a space between neighbours.
pub open spec fn formats_text(f: Seq<u8>) -> Seq<char>
    decreases f.len(),
{
    if f.len() == 0 {
        Seq::empty()
    } else if f.len() == 1 {
        decimal(f[0] as nat)
    } else {
        formats_text(f.drop_last()) + seq![' '] + decimal(f.last() as nat)
    }
}

/// The `a=` lines of the attributes.
pub open spec fn attributes_text(a: Seq<Seq<char>>) -> Seq<char>
    decreases a.len(),
{
    if a.len() == 0 {
        Seq::empty()
    } else {
        attributes_text(a.drop_last()) + "a="@ + a.last() + "\r\n"@
    }
}

/// The lines of one media section.
pub open spec fn media_text(m: MediaView) -> Seq<char> {
    "m="@ + m.media_type + seq![' '] + decimal(m.port as nat) + seq![' '] + m.protocol + seq![' ']
        + formats_text(m.formats) + "\r\n"@ + attributes_text(m.attributes)
}

/// The lines of the media sections.
pub open spec fn all_media_text(m: Seq<MediaView>) -> Seq<char>
    decreases m.len(),
{
    if m.len() == 0 {
        Seq::empty()
    } else {
        all_media_text(m.drop_last()) + media_text(m.last())
    }
}

/// The text of a session description: `v=`, `o=`, `s=`, `c=` where there is
/// a connection, `t=0 0`, then the media sections; each line ended by a
/// carriage return and a line feed.
pub open spec fn sdp_text(d: SdpView) -> Seq<char> {
    "v="@ + decimal(d.version as nat) + "\r\n"@ + "o="@ + d.origin + "\r\n"@ + "s="@
        + d.session_name + "\r\n"@ + (match d.connection {
        Some(c) => "c="@ + c + "\r\n"@,
        None => Seq::empty(),
    }) + "t=0 0\r\n"@ + all_media_text(d.media)
}

fn read_formats(parts: &Vec<Vec<char>>, from: usize) -> (r: Vec<u8>)
    requires
        from <= parts.len(),
    ensures
        r@ == formats_in(views(parts@).skip(from as int)),
{
    let ghost p = views(parts@).skip(from as int);
    let mut out: Vec<u8> = Vec::new();
    let mut i: usize = from;
    assert(p.take(0) =~= Seq::empty());
    while i < parts.len()
        invariant
            from <= i <= parts.len(),
            p == views(parts@).skip(from as int),
            out@ == formats_in(p.take(i - from)),
        decreases parts.len() - i,
    {
        proof {
            assert(p.take(i - from + 1).drop_last() =~= p.take(i - from));
            assert(p.take(i - from + 1).last() == parts@[i as int]@);
        }
        match parse_number(&parts[i], 255) {
            Some(n) => {
                out.push(n as u8);
            },
            None => {},
        }
        i += 1;
    }
    assert(p.take(parts.len() - from) =~= p);
    out
}

fn has_prefix(line: &Vec<char>, prefix: &str) -> (b: bool)
    ensures
        b == occurs_at(line@, prefix@, 0),
{
    let p = chars_of(prefix);
    matches_at(line, &p, 0)
}

fn read_line(acc: SdpSession, line: &Vec<char>) -> (r: Result<SdpSession, SdpError>)
    ensures
        match r {
            Ok(s) => sdp_line(acc@, line@) == Ok::<SdpView, SdpError>(s@),
            Err(e) => sdp_line(acc@, line@) == Err::<SdpView, SdpError>(e),
        },
{
    let mut acc = acc;
    let ghost before = acc@;
    let content: Vec<char> = if line.len() >= 2 {
        slice_of(line, 2, line.len())
    } else {
        Vec::new()
    };
    assert(content@ =~= after_tag(line@));
    proof {
        reveal_strlit("v=");
        reveal_strlit("o=");
        reveal_strlit("s=");
        reveal_strlit("c=");
        reveal_strlit("m=");
        reveal_strlit("a=");
    }
    if has_prefix(line, "v=") {
        match parse_number(&content, 255) {
            Some(n) => {
                acc.version = n as u8;
                Ok(acc)
            },
            None => Err(SdpError::InvalidVersion),
        }
    } else if has_prefix(line, "o=") {
        acc.origin = string_of(&content);
        Ok(acc)
    } else if has_prefix(line, "s=") {
        acc.session_name = string_of(&content);
        Ok(acc)
    } else if has_prefix(line, "c=") {
        acc.connection = Some(string_of(&content));
        Ok(acc)
    } else if has_prefix(line, "m=") {
        let parts = split_words(&content);
        if parts.len() >= 3 {
            assert(views(parts@)[0] == parts@[0]@);
            assert(views(parts@)[1] == parts@[1]@);
            assert(views(parts@)[2] == parts@[2]@);
            match parse_number(&parts[1], 65535) {
                Some(port) => {
                    let media = MediaDescription {
                        media_type: string_of(&parts[0]),
                        port: port as u16,
                        protocol: string_of(&parts[2]),
                        formats: read_formats(&parts, 3),
                        attributes: Vec::new(),
                    };
                    assert(media@.attributes =~= Seq::empty());
                    acc.media.push(media);
                    assert(media_views(acc.media@) =~= before.media.push(media@));
                    Ok(acc)
                },
                None => Err(SdpError::InvalidPort),
            }
        } else {
            Ok(acc)
        }
    } else if has_prefix(line, "a=") && acc.media.len() > 0 {
        let last = acc.media.len() - 1;
        assert(before.media.last() == acc.media@[last as int]@);
        let mut m = acc.media.remove(last);
        let ghost attrs = string_views(m.attributes@);
        let text = string_of(&content);
        m.attributes.push(text);
        assert(string_views(m.attributes@) =~= attrs.push(content@));
        acc.media.insert(last, m);
        assert(media_views(acc.media@) =~= before.media.update(
            last as int,
            MediaView { attributes: attrs.push(content@), ..before.media.last() },
        ));
        Ok(acc)
    } else {
        Ok(acc)
    }
}

fn write_formats(out: &mut Vec<char>, formats: &Vec<u8>)
    ensures
        final(out)@ == old(out)@ + formats_text(formats@),
{
    let mut i: usize = 0;
    assert(formats@.take(0) =~= Seq::empty());
    while i < formats.len()
        invariant
            i <= formats.len(),
            out@ == old(out)@ + formats_text(formats@.take(i as int)),
        decreases formats.len() - i,
    {
        let ghost before = out@;
        if i > 0 {
            out.push(' ');
        }
        push_decimal(out, formats[i] as u64);
        proof {
            let f = formats@;
            assert(f.take(i + 1).drop_last() =~= f.take(i as int));
            assert(f.take(i + 1).last() == f[i as int]);
            if i == 0 {
                assert(f.take(1)[0] == f[0]);
                assert(out@ =~= old(out)@ + decimal(f[0] as nat));
            } else {
                assert(out@ =~= before + seq![' '] + decimal(f[i as int] as nat));
            }
        }
        i += 1;
    }
    assert(formats@.take(formats.len() as int) =~= formats@);
}

fn write_media(out: &mut Vec<char>, m: &MediaDescription)
    ensures
        final(out)@ == old(out)@ + media_text(m@),
{
    append_str(out, "m=");
    append_str(out, m.media_type.as_str());
    out.push(' ');
    push_decimal(out, m.port as u64);
    out.push(' ');
    append_str(out, m.protocol.as_str());
    out.push(' ');
    write_formats(out, &m.formats);
    append_str(out, "\r\n");
    let ghost head = out@;
    let ghost av = string_views(m.attributes@);
    let mut i: usize = 0;
    assert(av.take(0) =~= Seq::empty());
    while i < m.attributes.len()
        invariant
            i <= m.attributes.len(),
            av == string_views(m.attributes@),
            out@ == head + attributes_text(av.take(i as int)),
        decreases m.attributes.len() - i,
    {
        let ghost before = out@;
        append_str(out, "a=");
        append_str(out, m.attributes[i].as_str());
        append_str(out, "\r\n");
        proof {
            assert(av.take(i + 1).drop_last() =~= av.take(i as int));
            assert(av.take(i + 1).last() == m.attributes@[i as int]@);
            assert(out@ =~= before + "a="@ + av[i as int] + "\r\n"@);
        }
        i += 1;
    }
    assert(av.take(m.attributes.len() as int) =~= av);
    assert(out@ =~= old(out)@ + media_text(m@));
}

impl SdpSession {
    pub fn new() -> (r: Self)
        ensures
            r@ == empty_sdp(),
    {
        let r = SdpSession {
            version: 0,
            origin: String::new(),
            session_name: String::new(),
            connection: None,
            media: Vec::new(),
        };
        assert(media_views(r.media@) =~= Seq::empty());
        r
    }

    /// Parse SDP from string.
    pub fn parse(sdp: &str) -> (r: Result<Self, SdpError>)
        ensures
            match r {
                Ok(s) => parse_sdp(sdp@) == Ok::<SdpView, SdpError>(s@),
                Err(e) => parse_sdp(sdp@) == Err::<SdpView, SdpError>(e),
            },
    {
        let v = chars_of(sdp);
        let ls = split_lines(&v);
        let ghost lv = views(ls@);
        let mut session = SdpSession::new();
        let mut i: usize = 0;
        assert(lv.take(0) =~= Seq::empty());
        while i < ls.len()
            invariant
                i <= ls.len(),
                lv == views(ls@),
                lv == lines(sdp@),
                sdp_of_lines(lv.take(i as int)) == Ok::<SdpView, SdpError>(session@),
            decreases ls.len() - i,
        {
            proof {
                assert(lv.take(i + 1).drop_last() =~= lv.take(i as int));
                assert(lv.take(i + 1).last() == ls@[i as int]@);
            }
            let line = trim_chars(&ls[i]);
            match read_line(session, &line) {
                Ok(s) => {
                    session = s;
                },
                Err(e) => {
                    proof {
                        lemma_error_stays(lv, i + 1);
                    }
                    return Err(e);
                },
            }
            i += 1;
        }
        assert(lv.take(ls.len() as int) =~= lv);
        Ok(session)
    }

    /// Serialize to SDP string.
    pub fn to_string(&self) -> (s: String)
        ensures
            s@ == sdp_text(self@),
    {
        let mut out: Vec<char> = Vec::new();
        append_str(&mut out, "v=");
        push_decimal(&mut out, self.version as u64);
        append_str(&mut out, "\r\n");
        append_str(&mut out, "o=");
        append_str(&mut out, self.origin.as_str());
        append_str(&mut out, "\r\n");
        append_str(&mut out, "s=");
        append_str(&mut out, self.session_name.as_str());
        append_str(&mut out, "\r\n");
        match &self.connection {
            Some(c) => {
                append_str(&mut out, "c=");
                append_str(&mut out, c.as_str());
                append_str(&mut out, "\r\n");
            },
            None => {},
        }
        append_str(&mut out, "t=0 0\r\n");
        let ghost head = out@;
        let ghost mv = media_views(self.media@);
        let mut i: usize = 0;
        assert(mv.take(0) =~= Seq::empty());
        while i < self.media.len()
            invariant
                i <= self.media.len(),
                mv == media_views(self.media@),
                out@ == head + all_media_text(mv.take(i as int)),
            decreases self.media.len() - i,
        {
            let ghost before = out@;
            write_media(&mut out, &self.media[i]);
            proof {
                assert(mv.take(i + 1).drop_last() =~= mv.take(i as int));
                assert(mv.take(i + 1).last() == self.media@[i as int]@);
            }
            i += 1;
        }
        assert(mv.take(self.media.len() as int) =~= mv);
        assert(out@ =~= sdp_text(self@));
        string_of(&out)
    }
}

/// Once a prefix of the lines gives an error, the whole gives that error.
proof fn lemma_error_stays(ls: Seq<Seq<char>>, k: int)
    requires
        0 <= k <= ls.len(),
        sdp_of_lines(ls.take(k)) is Err,
    ensures
        sdp_of_lines(ls) == sdp_of_lines(ls.take(k)),
    decreases ls.len() - k,
{
    if k < ls.len() {
        assert(ls.take(k + 1).drop_last() =~= ls.take(k));
        lemma_error_stays(ls, k + 1);
    } else {
        assert(ls.take(k) =~= ls);
    }
}

impl Default for SdpSession {
    fn default() -> (r: Self)
        ensures
            r@ == empty_sdp(),
    {
        SdpSession::new()
    }
}

} // verus!
