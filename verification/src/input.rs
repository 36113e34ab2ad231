//! Parsing of the interactive console commands.

use vstd::prelude::*;
use vstd::string::StringExecFns;
use crate::index::strings_model;
use crate::text::str_eq;

verus! {

/// Whether a character has the Unicode white-space property.
pub uninterp spec fn is_whitespace_char(c: char) -> bool;

/// Relies on `char::is_whitespace`: a property of the character alone.
#[verifier::external_body]
fn char_is_whitespace(c: char) -> (r: bool)
    ensures
        r == is_whitespace_char(c),
{
    c.is_whitespace()
}

/// The whitespace-separated words of a line: `cur` is the word read so
/// far.
pub open spec fn split_words_from(s: Seq<char>, cur: Seq<char>) -> Seq<Seq<char>>
    decreases s.len(),
{
    if s.len() == 0 {
        if cur.len() == 0 {
            seq![]
        } else {
            seq![cur]
        }
    } else if is_whitespace_char(s[0]) {
        if cur.len() == 0 {
            split_words_from(s.skip(1), cur)
        } else {
            seq![cur] + split_words_from(s.skip(1), Seq::empty())
        }
    } else {
        split_words_from(s.skip(1), cur.push(s[0]))
    }
}

/// The whitespace-separated words of a line.
pub open spec fn split_words(s: Seq<char>) -> Seq<Seq<char>> {
    split_words_from(s, Seq::empty())
}

/// The whitespace-separated words of a line, as values.
pub fn split_whitespace_words(s: &str) -> (r: Vec<String>)
    ensures
        strings_model(r@) == split_words(s@),
{
    let n = s.unicode_len();
    let mut out: Vec<String> = Vec::new();
    let mut cur = String::new();
    let mut i: usize = 0;
    proof {
        assert(s@.skip(0) =~= s@);
        assert(strings_model(out@) =~= Seq::<Seq<char>>::empty());
        assert(Seq::<Seq<char>>::empty() + split_words_from(s@, cur@) =~= split_words_from(
            s@,
            cur@,
        ));
    }
    while i < n
        invariant
            n == s@.len(),
            i <= n,
            split_words(s@) == strings_model(out@) + split_words_from(s@.skip(i as int), cur@),
        decreases n - i,
    {
        let c = s.get_char(i);
        proof {
            assert(s@.skip(i as int)[0] == s@[i as int]);
            assert(s@.skip(i as int).skip(1) =~= s@.skip(i as int + 1));
        }
        if char_is_whitespace(c) {
            if !cur.as_str().is_empty() {
                let ghost outm = strings_model(out@);
                let ghost curm = cur@;
                out.push(cur);
                cur = String::new();
                proof {
                    assert(strings_model(out@) =~= outm.push(curm));
                    assert(outm + (seq![curm] + split_words_from(
                        s@.skip(i as int + 1),
                        Seq::empty(),
                    )) =~= outm.push(curm) + split_words_from(s@.skip(i as int + 1), Seq::empty()));
                }
            }
        } else {
            let ghost curm = cur@;
            let piece = s.substring_char(i, i + 1);
            cur.append(piece);
            proof {
                assert(s@.subrange(i as int, i as int + 1) =~= seq![s@[i as int]]);
                assert(cur@ =~= curm.push(s@[i as int]));
            }
        }
        i = i + 1;
    }
    proof {
        assert(s@.skip(n as int) =~= Seq::<char>::empty());
    }
    if !cur.as_str().is_empty() {
        let ghost outm = strings_model(out@);
        let ghost curm = cur@;
        out.push(cur);
        proof {
            assert(strings_model(out@) =~= outm.push(curm));
            assert(outm + seq![curm] =~= outm.push(curm));
        }
    } else {
        proof {
            assert(strings_model(out@) + Seq::<Seq<char>>::empty() =~= strings_model(out@));
        }
    }
    out
}

/// Words joined with single spaces, as the console rebuilds a message
/// from its tokens.
pub open spec fn join_words(ws: Seq<Seq<char>>) -> Seq<char>
    decreases ws.len(),
{
    if ws.len() == 0 {
        Seq::empty()
    } else if ws.len() == 1 {
        ws[0]
    } else {
        ws[0] + seq![' '] + join_words(ws.skip(1))
    }
}

proof fn lemma_join_words_push(ws: Seq<Seq<char>>, w: Seq<char>)
    ensures
        join_words(ws.push(w)) == if ws.len() == 0 {
            w
        } else {
            join_words(ws) + seq![' '] + w
        },
    decreases ws.len(),
{
    if ws.len() == 0 {
        assert(ws.push(w) =~= seq![w]);
    } else {
        lemma_join_words_push(ws.skip(1), w);
        assert(ws.push(w).skip(1) =~= ws.skip(1).push(w));
        assert(ws.push(w)[0] == ws[0]);
        if ws.len() == 1 {
            assert(join_words(ws.push(w)) == ws[0] + seq![' '] + join_words(ws.skip(1).push(w)));
            assert(ws.skip(1) =~= Seq::<Seq<char>>::empty());
            assert(ws.skip(1).push(w) =~= seq![w]);
            assert(join_words(seq![w]) == seq![w][0]);
            assert(join_words(ws) == ws[0]);
        } else {
            assert(join_words(ws.push(w)) == ws[0] + seq![' '] + join_words(ws.skip(1).push(w)));
            assert(ws[0] + seq![' '] + (join_words(ws.skip(1)) + seq![' '] + w) =~= (ws[0]
                + seq![' '] + join_words(ws.skip(1))) + seq![' '] + w);
        }
    }
}

/// Join the words from position `from` on with single spaces.
fn join_from(words: &Vec<String>, from: usize) -> (r: String)
    requires
        from <= words@.len(),
    ensures
        r@ == join_words(strings_model(words@).skip(from as int)),
{
    let ghost all = strings_model(words@);
    let mut out = String::new();
    let mut i: usize = from;
    while i < words.len()
        invariant
            all == strings_model(words@),
            from <= i <= all.len(),
            all.len() == words@.len(),
            out@ == join_words(all.subrange(from as int, i as int)),
        decreases words@.len() - i,
    {
        if i > from {
            out.append(" ");
            proof {
                reveal_strlit(" ");
            }
        }
        out.append(words[i].as_str());
        proof {
            assert(all.subrange(from as int, i as int + 1) =~= all.subrange(
                from as int,
                i as int,
            ).push(all[i as int]));
            lemma_join_words_push(all.subrange(from as int, i as int), all[i as int]);
        }
        i = i + 1;
    }
    proof {
        assert(all.subrange(from as int, all.len() as int) =~= all.skip(from as int));
    }
    out
}

/// A console command.
#[derive(Debug)]
pub enum Command {
    /// Broadcast a chat message to all peers.
    Broadcast { message: String },
    /// Send a chat message to one peer.
    Whisper { peer: String, message: String },
    /// Connect to a peer address.
    Connect { addr: String },
    /// List the chain contents.
    ShowChain,
    /// List the connected peers.
    ListPeers,
    /// Anything else: print the command help.
    Help,
}

pub ghost enum CommandModel {
    Broadcast { message: Seq<char> },
    Whisper { peer: Seq<char>, message: Seq<char> },
    Connect { addr: Seq<char> },
    ShowChain,
    ListPeers,
    Help,
}

impl View for Command {
    type V = CommandModel;

    open spec fn view(&self) -> CommandModel {
        match self {
            Command::Broadcast { message } => CommandModel::Broadcast { message: message@ },
            Command::Whisper { peer, message } => CommandModel::Whisper {
                peer: peer@,
                message: message@,
            },
            Command::Connect { addr } => CommandModel::Connect { addr: addr@ },
            Command::ShowChain => CommandModel::ShowChain,
            Command::ListPeers => CommandModel::ListPeers,
            Command::Help => CommandModel::Help,
        }
    }
}

/// What a console line means.
pub open spec fn parse_command_spec(s: Seq<char>) -> CommandModel {
    let t = split_words(s);
    if t.len() >= 1 && t[0] == "/s"@ {
        CommandModel::Broadcast { message: join_words(t.skip(1)) }
    } else if t.len() >= 2 && t[0] == "/w"@ {
        CommandModel::Whisper { peer: t[1], message: join_words(t.skip(2)) }
    } else if t.len() == 2 && t[0] == "/connect"@ {
        CommandModel::Connect { addr: t[1] }
    } else if t.len() == 1 && t[0] == "/chain"@ {
        CommandModel::ShowChain
    } else if t.len() == 1 && t[0] == "/peers"@ {
        CommandModel::ListPeers
    } else {
        CommandModel::Help
    }
}

/// Parse a console line into a command.
pub fn parse_command(line: &str) -> (r: Command)
    ensures
        r@ == parse_command_spec(line@),
{
    let words = split_whitespace_words(line);
    if words.len() >= 1 && str_eq(words[0].as_str(), "/s") {
        Command::Broadcast { message: join_from(&words, 1) }
    } else if words.len() >= 2 && str_eq(words[0].as_str(), "/w") {
        let peer = words[1].clone();
        let message = join_from(&words, 2);
        Command::Whisper { peer, message }
    } else if words.len() == 2 && str_eq(words[0].as_str(), "/connect") {
        Command::Connect { addr: words[1].clone() }
    } else if words.len() == 1 && str_eq(words[0].as_str(), "/chain") {
        Command::ShowChain
    } else if words.len() == 1 && str_eq(words[0].as_str(), "/peers") {
        Command::ListPeers
    } else {
        Command::Help
    }
}

} // verus!
