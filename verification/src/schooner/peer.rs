//! The peers of a server, read from a Java-properties style config file
//! with lines such as
//!
//! ```text
//! peer.1.addr = 127.0.0.1:23158
//! peer.2.addr = 127.0.0.1:23159
//! ```
//!
//! The caller reads the lines of the file; this module turns them into
//! peers.
use vstd::prelude::*;

use crate::text::{
    append_chars, chars_ends_with, chars_of, chars_starts_with, has_prefix, has_suffix,
    parse_usize_chars, parse_usize_spec, split_chars, split_seq, string_from_chars, trim,
    trim_chars, views,
};

verus! {

/// A peer of the server.
#[derive(Clone, Debug, PartialEq, Eq)]
pub struct Peer {
    pub id: usize,
    pub ip: String,
    pub tcpport: usize,
    /// only used by the leader
    pub next_idx: u64,
    /// only used by the leader
    pub match_idx: u64,
}

/// A config file that could not be read.
#[derive(Debug)]
pub struct ConfigError {
    pub desc: String,
    pub detail: Option<String>,
}

/// What a `Peer` stands for.
pub struct PeerView {
    pub id: usize,
    pub ip: Seq<char>,
    pub tcpport: usize,
    pub next_idx: u64,
    pub match_idx: u64,
}

/// What a `ConfigError` stands for.
pub struct ConfigErrorView {
    pub desc: Seq<char>,
    pub detail: Option<Seq<char>>,
}

impl View for Peer {
    type V = PeerView;

    open spec fn view(&self) -> PeerView {
        PeerView {
            id: self.id,
            ip: self.ip@,
            tcpport: self.tcpport,
            next_idx: self.next_idx,
            match_idx: self.match_idx,
        }
    }
}

impl View for ConfigError {
    type V = ConfigErrorView;

    open spec fn view(&self) -> ConfigErrorView {
        ConfigErrorView {
            desc: self.desc@,
            detail: match self.detail {
                Some(d) => Some(d@),
                None => None,
            },
        }
    }
}

/// The error for a badly formed key.
pub open spec fn bad_key_view(msg: Seq<char>) -> ConfigErrorView {
    ConfigErrorView { desc: "badly formed config key"@, detail: Some(msg) }
}

/// The error for a badly formed value.
pub open spec fn bad_val_view(msg: Seq<char>) -> ConfigErrorView {
    ConfigErrorView { desc: "badly formed config value"@, detail: Some(msg) }
}

/// The peer that a property `key = val` describes: the key, trimmed, is
/// `peer.<id>.addr` and the value, trimmed, is `<ip>:<port>`, with an id
/// and a port that are numbers.
pub open spec fn peer_of_property(k: Seq<char>, v: Seq<char>) -> Result<PeerView, ConfigErrorView> {
    let key = trim(k);
    let key_toks = split_seq(key, '.');
    if !has_prefix(key, "peer"@) || !has_suffix(key, "addr"@) {
        Err(bad_key_view("bad key: "@ + key))
    } else if key_toks.len() != 3 {
        Err(bad_key_view("bad key: "@ + key))
    } else {
        match parse_usize_spec(key_toks[1]) {
            None => Err(bad_key_view("cannot parse id from second field; bad key: "@ + key)),
            Some(id) => {
                let val = trim(v);
                let val_toks = split_seq(val, ':');
                if val_toks.len() != 2 || val_toks[0].len() == 0 || val_toks[1].len() == 0 {
                    Err(bad_val_view("bad val: "@ + val + " for key "@ + key))
                } else {
                    match parse_usize_spec(val_toks[1]) {
                        None => Err(
                            bad_val_view(
                                "bad val: "@ + val + " port is not an integer. (For key "@ + key
                                    + ")"@,
                            ),
                        ),
                        Some(port) => Ok(
                            PeerView {
                                id,
                                ip: val_toks[0],
                                tcpport: port,
                                next_idx: 0,
                                match_idx: 0,
                            },
                        ),
                    }
                }
            },
        }
    }
}

/// What one line of the config file gives: nothing for a comment (a line
/// that starts with `#` once trimmed), else the peer of the property
/// `key = val` on it, or an error when the line is not a property.
pub open spec fn peer_of_line(ln: Seq<char>) -> Option<Result<PeerView, ConfigErrorView>> {
    if has_prefix(trim(ln), "#"@) {
        None
    } else if split_seq(ln, '=').len() != 2 {
        Some(
            Err(
                ConfigErrorView { desc: "badly formed property"@, detail: Some("bad line: "@ + ln) },
            ),
        )
    } else {
        Some(peer_of_property(split_seq(ln, '=')[0], split_seq(ln, '=')[1]))
    }
}

/// The peers that the lines of a config file describe, in order, or the
/// error of the first line that is neither a comment nor a good property.
pub open spec fn peers_of_lines(lines: Seq<Seq<char>>) -> Result<Seq<PeerView>, ConfigErrorView>
    decreases lines.len(),
{
    if lines.len() == 0 {
        Ok(Seq::empty())
    } else {
        match peer_of_line(lines[0]) {
            None => peers_of_lines(lines.drop_first()),
            Some(Err(e)) => Err(e),
            Some(Ok(p)) => match peers_of_lines(lines.drop_first()) {
                Ok(ps) => Ok(seq![p] + ps),
                Err(e) => Err(e),
            },
        }
    }
}

/// `acc` before the peers of `r`, or the error of `r`.
pub open spec fn after_peers(acc: Seq<PeerView>, r: Result<Seq<PeerView>, ConfigErrorView>) -> Result<
    Seq<PeerView>,
    ConfigErrorView,
> {
    match r {
        Ok(ps) => Ok(acc + ps),
        Err(e) => Err(e),
    }
}

/// The views of a sequence of peers.
pub open spec fn peer_views(ps: Seq<Peer>) -> Seq<PeerView> {
    ps.map_values(|p: Peer| p@)
}

/// The view of the result of reading peers.
pub open spec fn peers_result_view(r: Result<Vec<Peer>, ConfigError>) -> Result<Seq<PeerView>, ConfigErrorView> {
    match r {
        Ok(ps) => Ok(peer_views(ps@)),
        Err(e) => Err(e@),
    }
}

/// The view of the result of reading one peer.
pub open spec fn peer_result_view(r: Result<Peer, ConfigError>) -> Result<PeerView, ConfigErrorView> {
    match r {
        Ok(p) => Ok(p@),
        Err(e) => Err(e@),
    }
}

/// The string `a` followed by the characters of `b`.
fn cat(a: &str, b: &Vec<char>) -> (r: String)
    ensures
        r@ == a@ + b@,
{
    let mut r = string_from_chars(&chars_of(a));
    append_chars(&mut r, b);
    r
}

/// The error for a badly formed key, with `msg` as its detail.
pub fn bad_key(msg: String) -> (e: ConfigError)
    ensures
        e@ == bad_key_view(msg@),
{
    ConfigError { desc: string_from_chars(&chars_of("badly formed config key")), detail: Some(msg) }
}

/// The error for a badly formed value, with `msg` as its detail.
pub fn bad_val(msg: String) -> (e: ConfigError)
    ensures
        e@ == bad_val_view(msg@),
{
    ConfigError { desc: string_from_chars(&chars_of("badly formed config value")), detail: Some(msg) }
}

/// The peer that the property with key `cfg_toks[0]` and value
/// `cfg_toks[1]` describes.
pub fn create_peer(cfg_toks: &Vec<Vec<char>>) -> (r: Result<Peer, ConfigError>)
    requires
        cfg_toks.len() >= 2,
    ensures
        peer_result_view(r) == peer_of_property(cfg_toks@[0]@, cfg_toks@[1]@),
{
    // parse key
    let key = trim_chars(&cfg_toks[0]);
    if !chars_starts_with(&key, &chars_of("peer")) || !chars_ends_with(&key, &chars_of("addr")) {
        return Err(bad_key(cat("bad key: ", &key)));
    }
    let key_toks = split_chars(&key, '.');
    if key_toks.len() != 3 {
        return Err(bad_key(cat("bad key: ", &key)));
    }
    assert(key_toks@[1]@ == split_seq(key@, '.')[1]);
    let id = parse_usize_chars(&key_toks[1]);
    if id.is_none() {
        return Err(bad_key(cat("cannot parse id from second field; bad key: ", &key)));
    }
    let id = id.unwrap();
    // parse value
    let val = trim_chars(&cfg_toks[1]);
    let val_toks = split_chars(&val, ':');
    if val_toks.len() != 2 || val_toks[0].len() == 0 || val_toks[1].len() == 0 {
        let mut msg = cat("bad val: ", &val);
        let for_key = cat(" for key ", &key);
        append_chars(&mut msg, &chars_of(for_key.as_str()));
        assert(msg@ =~= "bad val: "@ + val@ + " for key "@ + key@);
        return Err(bad_val(msg));
    }
    assert(val_toks@[0]@ == split_seq(val@, ':')[0]);
    assert(val_toks@[1]@ == split_seq(val@, ':')[1]);
    let port = parse_usize_chars(&val_toks[1]);
    if port.is_none() {
        let mut msg = cat("bad val: ", &val);
        let for_key = cat(" port is not an integer. (For key ", &key);
        append_chars(&mut msg, &chars_of(for_key.as_str()));
        append_chars(&mut msg, &chars_of(")"));
        assert(msg@ =~= "bad val: "@ + val@ + " port is not an integer. (For key "@ + key@ + ")"@);
        return Err(bad_val(msg));
    }
    let port = port.unwrap();
    Ok(Peer { id, ip: string_from_chars(&val_toks[0]), tcpport: port, next_idx: 0, match_idx: 0 })
}

/// The peers described by the lines of a config file; the first line that
/// is neither a comment nor a good `peer.<id>.addr = <ip>:<port>` property
/// gives an error.
pub fn parse_config_lines(lines: &Vec<String>) -> (r: Result<Vec<Peer>, ConfigError>)
    ensures
        peers_result_view(r) == peers_of_lines(lines@.map_values(|l: String| l@)),
{
    let ghost all = lines@.map_values(|l: String| l@);
    let mut peers: Vec<Peer> = Vec::new();
    let mut i: usize = 0;
    assert(all.skip(0) =~= all);
    while i < lines.len()
        invariant
            i <= lines.len(),
            all == lines@.map_values(|l: String| l@),
            peers_of_lines(all) == after_peers(peer_views(peers@), peers_of_lines(all.skip(i as int))),
        decreases lines.len() - i,
    {
        let ln = chars_of(lines[i].as_str());
        let ghost rest = all.skip(i as int);
        assert(rest[0] == ln@);
        assert(rest.drop_first() =~= all.skip(i + 1));
        let trimmed = trim_chars(&ln);
        if !chars_starts_with(&trimmed, &chars_of("#")) {
            let v = split_chars(&ln, '=');
            if v.len() != 2 {
                let detail = cat("bad line: ", &ln);
                return Err(
                    ConfigError {
                        desc: string_from_chars(&chars_of("badly formed property")),
                        detail: Some(detail),
                    },
                );
            }
            assert(v@[0]@ == split_seq(ln@, '=')[0]);
            assert(v@[1]@ == split_seq(ln@, '=')[1]);
            match create_peer(&v) {
                Ok(p) => {
                    let ghost before = peers@;
                    peers.push(p);
                    assert(peer_views(peers@) =~= peer_views(before).push(p@));
                    assert(after_peers(peer_views(peers@), peers_of_lines(all.skip(i + 1)))
                        == after_peers(peer_views(before), peers_of_lines(rest))) by {
                        match peers_of_lines(all.skip(i + 1)) {
                            Ok(ps) => {
                                assert(peer_views(before).push(p@) + ps =~= peer_views(before) + (
                                seq![p@] + ps));
                            },
                            Err(_) => {},
                        }
                    }
                },
                Err(e) => {
                    return Err(e);
                },
            }
        }
        i += 1;
    }
    assert(all.skip(i as int) =~= Seq::<Seq<char>>::empty());
    assert(peer_views(peers@) + Seq::<PeerView>::empty() =~= peer_views(peers@));
    Ok(peers)
}

} // verus!
