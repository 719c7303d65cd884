//! Media handling - SRTP pass-through and SDP manipulation.

pub mod codec;
pub mod sdp;
pub mod srtp;

pub use codec::{Codec, CodecConfig};
pub use sdp::SdpSession;
pub use srtp::SrtpConfig;

use vstd::prelude::*;
use vstd::string::*;
use crate::media::codec::rtpmap_text;
use crate::media::sdp::{media_views, MediaDescription, MediaView, SdpView};
use crate::numeral::{parse_number, parse_unsigned};
use crate::text::{
    append_str, chars_of, contains_text, has_text, lines, matches_at, occurs_at, split_lines,
    split_words, string_of, string_views, views, words,
};

verus! {

/// Media session information.
#[derive(Debug, Clone)]
pub struct MediaSession {
    pub sdp_offer: Option<String>,
    pub sdp_answer: Option<String>,
    pub srtp_enabled: bool,
    pub rtp_address: Option<String>,
    pub rtp_port: Option<u16>,
}

/// What the lines of a description tell of the media: connection address,
/// media port, and whether the transport is SRTP.
pub struct MediaInfo {
    pub srtp_enabled: bool,
    pub rtp_address: Option<Seq<char>>,
    pub rtp_port: Option<u16>,
}

/// The media information after one more line.
///
/// A `c=` line with three parts or more gives the address, its third part.
/// An `m=` line gives the port, where its second part is a number of at
/// most 65535, and switches SRTP on where it holds `RTP/SAVP`.
pub open spec fn media_line(acc: MediaInfo, line: Seq<char>) -> MediaInfo {
    let parts = words(line);
    if occurs_at(line, "c="@, 0) {
        if parts.len() >= 3 {
            MediaInfo { rtp_address: Some(parts[2]), ..acc }
        } else {
            acc
        }
    } else if occurs_at(line, "m="@, 0) {
        let port = if parts.len() >= 2 {
            parse_unsigned(parts[1], 65535)
        } else {
            None
        };
        MediaInfo {
            rtp_port: match port {
                Some(p) => Some(p as u16),
                None => acc.rtp_port,
            },
            srtp_enabled: acc.srtp_enabled || contains_text(line, "RTP/SAVP"@),
            ..acc
        }
    } else {
        acc
    }
}

/// The media information after the lines, read in order.
pub open spec fn media_of_lines(acc: MediaInfo, ls: Seq<Seq<char>>) -> MediaInfo
    decreases ls.len(),
{
    if ls.len() == 0 {
        acc
    } else {
        media_line(media_of_lines(acc, ls.drop_last()), ls.last())
    }
}

impl MediaSession {
    /// The media information of the session.
    pub open spec fn info(self) -> MediaInfo {
        MediaInfo {
            srtp_enabled: self.srtp_enabled,
            rtp_address: match self.rtp_address {
                Some(a) => Some(a@),
                None => None,
            },
            rtp_port: self.rtp_port,
        }
    }

    pub fn new() -> (r: Self)
        ensures
            r.sdp_offer is None,
            r.sdp_answer is None,
            !r.srtp_enabled,
            r.rtp_address is None,
            r.rtp_port is None,
    {
        MediaSession {
            sdp_offer: None,
            sdp_answer: None,
            srtp_enabled: false,
            rtp_address: None,
            rtp_port: None,
        }
    }

    pub fn with_sdp_offer(self, sdp: String) -> (r: Self)
        ensures
            r.sdp_offer == Some(sdp),
            r.sdp_answer == self.sdp_answer,
            r.info() == self.info(),
    {
        let mut r = self;
        r.sdp_offer = Some(sdp);
        r
    }

    pub fn with_sdp_answer(self, sdp: String) -> (r: Self)
        ensures
            r.sdp_answer == Some(sdp),
            r.sdp_offer == self.sdp_offer,
            r.info() == self.info(),
    {
        let mut r = self;
        r.sdp_answer = Some(sdp);
        r
    }

    pub fn enable_srtp(self) -> (r: Self)
        ensures
            r.srtp_enabled,
            r.sdp_offer == self.sdp_offer,
            r.sdp_answer == self.sdp_answer,
            r.rtp_address == self.rtp_address,
            r.rtp_port == self.rtp_port,
    {
        let mut r = self;
        r.srtp_enabled = true;
        r
    }

    /// Parse SDP and extract media information. Every text is accepted.
    pub fn parse_sdp(&mut self, sdp: &str) -> (r: Result<(), crate::media::sdp::SdpError>)
        ensures
            r is Ok,
            final(self).info() == media_of_lines(old(self).info(), lines(sdp@)),
            final(self).sdp_offer == old(self).sdp_offer,
            final(self).sdp_answer == old(self).sdp_answer,
    {
        let v = chars_of(sdp);
        let ls = split_lines(&v);
        let ghost lv = views(ls@);
        let ghost start = self.info();
        let c_tag = chars_of("c=");
        let m_tag = chars_of("m=");
        let savp = chars_of("RTP/SAVP");
        let mut i: usize = 0;
        assert(lv.take(0) =~= Seq::empty());
        while i < ls.len()
            invariant
                i <= ls.len(),
                lv == views(ls@),
                c_tag@ == "c="@,
                m_tag@ == "m="@,
                savp@ == "RTP/SAVP"@,
                self.info() == media_of_lines(start, lv.take(i as int)),
                self.sdp_offer == old(self).sdp_offer,
                self.sdp_answer == old(self).sdp_answer,
            decreases ls.len() - i,
        {
            proof {
                assert(lv.take(i + 1).drop_last() =~= lv.take(i as int));
                assert(lv.take(i + 1).last() == ls@[i as int]@);
            }
            let line = &ls[i];
            if matches_at(line, &c_tag, 0) {
                let parts = split_words(line);
                if parts.len() >= 3 {
                    assert(views(parts@)[2] == parts@[2]@);
                    self.rtp_address = Some(string_of(&parts[2]));
                }
            } else if matches_at(line, &m_tag, 0) {
                let parts = split_words(line);
                if parts.len() >= 2 {
                    assert(views(parts@)[1] == parts@[1]@);
                    match parse_number(&parts[1], 65535) {
                        Some(p) => {
                            self.rtp_port = Some(p as u16);
                        },
                        None => {},
                    }
                }
                if has_text(line, &savp) {
                    self.srtp_enabled = true;
                }
            }
            i += 1;
        }
        assert(lv.take(ls.len() as int) =~= lv);
        Ok(())
    }
}

impl Default for MediaSession {
    fn default() -> (r: Self)
        ensures
            r.sdp_offer is None,
            r.sdp_answer is None,
            !r.srtp_enabled,
            r.rtp_address is None,
            r.rtp_port is None,
    {
        MediaSession::new()
    }
}

// ---------------------------------------------------------------------------
// Negotiation
// ---------------------------------------------------------------------------

/// The index at or after `from` of the first enabled codec with the payload
/// type, or the number of codecs.
pub open spec fn enabled_index(codecs: Seq<Codec>, pt: u8, from: int) -> int
    decreases codecs.len() - from,
{
    if 0 <= from < codecs.len() && !(codecs[from].enabled && codecs[from].payload_type == pt) {
        enabled_index(codecs, pt, from + 1)
    } else {
        from
    }
}

/// The payload types of the offer that an enabled codec has, in the order
/// of the offer.
pub open spec fn common_formats(offered: Seq<u8>, codecs: Seq<Codec>) -> Seq<u8>
    decreases offered.len(),
{
    if offered.len() == 0 {
        Seq::empty()
    } else if enabled_index(codecs, offered.last(), 0) < codecs.len() {
        common_formats(offered.drop_last(), codecs).push(offered.last())
    } else {
        common_formats(offered.drop_last(), codecs)
    }
}

/// The `rtpmap` attributes of the payload types, each from the first
/// enabled codec that has the type.
pub open spec fn rtpmap_attributes(formats: Seq<u8>, codecs: Seq<Codec>) -> Seq<Seq<char>>
    decreases formats.len(),
{
    if formats.len() == 0 {
        Seq::empty()
    } else {
        rtpmap_attributes(formats.drop_last(), codecs).push(
            "rtpmap:"@ + rtpmap_text(codecs[enabled_index(codecs, formats.last(), 0)]),
        )
    }
}

/// The `crypto` attributes among the attributes, as they are and in their
/// order.
pub open spec fn crypto_attributes(attributes: Seq<Seq<char>>) -> Seq<Seq<char>>
    decreases attributes.len(),
{
    if attributes.len() == 0 {
        Seq::empty()
    } else if occurs_at(attributes.last(), "crypto:"@, 0) {
        crypto_attributes(attributes.drop_last()).push(attributes.last())
    } else {
        crypto_attributes(attributes.drop_last())
    }
}

/// The media section that answers an offered one: the common payload types
/// on the local port, under the transport profile of the offer, with the
/// `rtpmap` attributes of the types and the `crypto` attributes of the offer.
pub open spec fn answer_media(offered: MediaView, codecs: Seq<Codec>, port: u16) -> MediaView {
    let formats = common_formats(offered.formats, codecs);
    MediaView {
        media_type: offered.media_type,
        port,
        protocol: offered.protocol,
        formats,
        attributes: rtpmap_attributes(formats, codecs) + crypto_attributes(offered.attributes),
    }
}

/// The answers to the offered sections that share a payload type with the
/// enabled codecs.
pub open spec fn answer_sections(offered: Seq<MediaView>, codecs: Seq<Codec>, port: u16) -> Seq<
    MediaView,
>
    decreases offered.len(),
{
    if offered.len() == 0 {
        Seq::empty()
    } else if common_formats(offered.last().formats, codecs).len() > 0 {
        answer_sections(offered.drop_last(), codecs, port).push(
            answer_media(offered.last(), codecs, port),
        )
    } else {
        answer_sections(offered.drop_last(), codecs, port)
    }
}

/// The description for the other leg: that of the offer with the local
/// connection, and the sections that can be answered; none where no section
/// can.
pub open spec fn negotiated(offer: SdpView, codecs: Seq<Codec>, connection: Seq<char>, port: u16) -> Option<
    SdpView,
> {
    let media = answer_sections(offer.media, codecs, port);
    if media.len() == 0 {
        None
    } else {
        Some(SdpView { connection: Some(connection), media, ..offer })
    }
}

pub proof fn lemma_enabled_index_is(codecs: Seq<Codec>, pt: u8, from: int, r: int)
    requires
        0 <= from <= r <= codecs.len(),
        forall|j: int|
            from <= j < r ==> !((#[trigger] codecs[j]).enabled && codecs[j].payload_type == pt),
        r < codecs.len() ==> codecs[r].enabled && codecs[r].payload_type == pt,
    ensures
        enabled_index(codecs, pt, from) == r,
    decreases r - from,
{
    if from < r {
        lemma_enabled_index_is(codecs, pt, from + 1, r);
    }
}

fn find_enabled(codecs: &Vec<Codec>, pt: u8) -> (i: usize)
    ensures
        i == enabled_index(codecs@, pt, 0),
        i <= codecs.len(),
{
    let mut i: usize = 0;
    while i < codecs.len()
        invariant
            i <= codecs.len(),
            forall|j: int|
                0 <= j < i ==> !((#[trigger] codecs@[j]).enabled && codecs@[j].payload_type == pt),
        decreases codecs.len() - i,
    {
        if codecs[i].enabled && codecs[i].payload_type == pt {
            proof {
                lemma_enabled_index_is(codecs@, pt, 0, i as int);
            }
            return i;
        }
        i += 1;
    }
    proof {
        lemma_enabled_index_is(codecs@, pt, 0, i as int);
    }
    i
}

fn answer_one(offered: &MediaDescription, codecs: &Vec<Codec>, port: u16) -> (r: MediaDescription)
    ensures
        r@ == answer_media(offered@, codecs@, port),
{
    let mut formats: Vec<u8> = Vec::new();
    let mut attributes: Vec<String> = Vec::new();
    let ghost f = offered.formats@;
    let mut i: usize = 0;
    assert(f.take(0) =~= Seq::empty());
    assert(string_views(attributes@) =~= Seq::empty());
    while i < offered.formats.len()
        invariant
            i <= offered.formats.len(),
            f == offered.formats@,
            formats@ == common_formats(f.take(i as int), codecs@),
            string_views(attributes@) == rtpmap_attributes(formats@, codecs@),
        decreases offered.formats.len() - i,
    {
        proof {
            assert(f.take(i + 1).drop_last() =~= f.take(i as int));
            assert(f.take(i + 1).last() == f[i as int]);
        }
        let pt = offered.formats[i];
        let k = find_enabled(codecs, pt);
        if k < codecs.len() {
            let ghost before_f = formats@;
            let ghost before_a = string_views(attributes@);
            formats.push(pt);
            let mut text: Vec<char> = Vec::new();
            append_str(&mut text, "rtpmap:");
            append_str(&mut text, codecs[k].rtpmap().as_str());
            attributes.push(string_of(&text));
            proof {
                assert(formats@.drop_last() =~= before_f);
                assert(text@ =~= "rtpmap:"@ + rtpmap_text(codecs@[k as int]));
                assert(string_views(attributes@) =~= before_a.push(text@));
            }
        }
        i += 1;
    }
    assert(f.take(offered.formats.len() as int) =~= f);
    let ghost maps = string_views(attributes@);
    let ghost av = string_views(offered.attributes@);
    let crypto = chars_of("crypto:");
    let mut j: usize = 0;
    assert(av.take(0) =~= Seq::empty());
    assert(maps + Seq::<Seq<char>>::empty() =~= maps);
    while j < offered.attributes.len()
        invariant
            j <= offered.attributes.len(),
            av == string_views(offered.attributes@),
            crypto@ == "crypto:"@,
            string_views(attributes@) == maps + crypto_attributes(av.take(j as int)),
        decreases offered.attributes.len() - j,
    {
        proof {
            assert(av.take(j + 1).drop_last() =~= av.take(j as int));
            assert(av.take(j + 1).last() == offered.attributes@[j as int]@);
        }
        let a = chars_of(offered.attributes[j].as_str());
        if matches_at(&a, &crypto, 0) {
            let ghost before = string_views(attributes@);
            attributes.push(offered.attributes[j].clone());
            assert(string_views(attributes@) =~= before.push(av[j as int]));
        }
        j += 1;
    }
    assert(av.take(offered.attributes.len() as int) =~= av);
    MediaDescription {
        media_type: offered.media_type.clone(),
        port,
        protocol: offered.protocol.clone(),
        formats,
        attributes,
    }
}

/// Builds the description for the other leg from an offer: the payload
/// types that the offer shares with the enabled codecs, in the order of the
/// offer, on the local connection and port. The transport profile and the
/// `crypto` attributes of the offer are kept as they are. None where the
/// offer shares no payload type with the enabled codecs.
pub fn negotiate(offer: &SdpSession, codecs: &CodecConfig, connection: &str, port: u16) -> (r: Option<
    SdpSession,
>)
    ensures
        match r {
            Some(s) => negotiated(offer@, codecs.codecs@, connection@, port) == Some(s@),
            None => negotiated(offer@, codecs.codecs@, connection@, port) is None,
        },
{
    let mut media: Vec<MediaDescription> = Vec::new();
    let ghost mv = media_views(offer.media@);
    let mut i: usize = 0;
    assert(mv.take(0) =~= Seq::empty());
    assert(media_views(media@) =~= Seq::empty());
    while i < offer.media.len()
        invariant
            i <= offer.media.len(),
            mv == media_views(offer.media@),
            media_views(media@) == answer_sections(mv.take(i as int), codecs.codecs@, port),
        decreases offer.media.len() - i,
    {
        proof {
            assert(mv.take(i + 1).drop_last() =~= mv.take(i as int));
            assert(mv.take(i + 1).last() == offer.media@[i as int]@);
        }
        let m = answer_one(&offer.media[i], &codecs.codecs, port);
        if m.formats.len() > 0 {
            let ghost before = media_views(media@);
            media.push(m);
            assert(media_views(media@) =~= before.push(m@));
        }
        i += 1;
    }
    assert(mv.take(offer.media.len() as int) =~= mv);
    if media.len() == 0 {
        None
    } else {
        Some(
            SdpSession {
                version: offer.version,
                origin: offer.origin.clone(),
                session_name: offer.session_name.clone(),
                connection: Some(connection.to_owned()),
                media,
            },
        )
    }
}

} // verus!
