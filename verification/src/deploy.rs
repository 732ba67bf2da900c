//! The command lines that deploy the telescope software to its host over
//! rsync and ssh.
use std::borrow::Cow;

use vstd::prelude::*;

verus! {

/// The characters that a Unix shell takes literally: ASCII letters and
/// digits, and `-_=/,.+`.
pub open spec fn is_shell_safe(c: char) -> bool {
    let v = c as u32;
    ||| 0x61 <= v <= 0x7a
    ||| 0x41 <= v <= 0x5a
    ||| 0x30 <= v <= 0x39
    ||| c == '-'
    ||| c == '_'
    ||| c == '='
    ||| c == '/'
    ||| c == ','
    ||| c == '.'
    ||| c == '+'
}

/// The body of a single-quoted word: each `'` and `!` closes the quotes,
/// is written escaped, and reopens them.
pub open spec fn quote_body(s: Seq<char>) -> Seq<char>
    decreases s.len(),
{
    if s.len() == 0 {
        seq![]
    } else {
        quote_body(s.drop_last()) + if s.last() == '\'' || s.last() == '!' {
            seq!['\'', '\\', s.last(), '\'']
        } else {
            seq![s.last()]
        }
    }
}

/// A word escaped for a Unix shell: unchanged where it is nonempty and all of
/// its characters are safe, single-quoted otherwise.
pub open spec fn shell_escaped(s: Seq<char>) -> Seq<char> {
    if s.len() > 0 && forall|i: int| 0 <= i < s.len() ==> #[trigger] is_shell_safe(s[i]) {
        s
    } else {
        seq!['\''] + quote_body(s) + seq!['\'']
    }
}

/// A POSIX shell's reading of a word, one character after another: the
/// characters it stands for so far, whether a single quote is open, and
/// whether a backslash outside quotes waits for the character it escapes.
pub open spec fn sh_step(st: (Seq<char>, bool, bool), c: char) -> (Seq<char>, bool, bool) {
    let (out, quoted, escaped) = st;
    if quoted {
        if c == '\'' {
            (out, false, false)
        } else {
            (out.push(c), true, false)
        }
    } else if escaped {
        (out.push(c), false, false)
    } else if c == '\'' {
        (out, true, false)
    } else if c == '\\' {
        (out, false, true)
    } else {
        (out.push(c), false, false)
    }
}

/// The shell's reading of `s`, from the state `st`.
pub open spec fn sh_read(st: (Seq<char>, bool, bool), s: Seq<char>) -> (Seq<char>, bool, bool)
    decreases s.len(),
{
    if s.len() == 0 {
        st
    } else {
        sh_step(sh_read(st, s.drop_last()), s.last())
    }
}

proof fn lemma_sh_read_concat(st: (Seq<char>, bool, bool), a: Seq<char>, b: Seq<char>)
    ensures
        sh_read(st, a + b) == sh_read(sh_read(st, a), b),
    decreases b.len(),
{
    if b.len() == 0 {
        assert(a + b =~= a);
    } else {
        lemma_sh_read_concat(st, a, b.drop_last());
        assert((a + b).drop_last() =~= a + b.drop_last());
        assert((a + b).last() == b.last());
    }
}

proof fn lemma_sh_read_quote_body(out: Seq<char>, s: Seq<char>)
    ensures
        sh_read((out, true, false), quote_body(s)) == (out + s, true, false),
    decreases s.len(),
{
    if s.len() == 0 {
        assert(out + s =~= out);
    } else {
        let init = s.drop_last();
        let c = s.last();
        lemma_sh_read_quote_body(out, init);
        let piece = if c == '\'' || c == '!' {
            seq!['\'', '\\', c, '\'']
        } else {
            seq![c]
        };
        lemma_sh_read_concat((out, true, false), quote_body(init), piece);
        let mid = (out + init, true, false);
        assert(quote_body(s) == quote_body(init) + piece);
        let p0 = Seq::<char>::empty();
        assert(sh_read(mid, p0) == mid);
        if c == '\'' || c == '!' {
            let p1 = seq!['\''];
            let p2 = seq!['\'', '\\'];
            let p3 = seq!['\'', '\\', c];
            assert(p1.drop_last() =~= p0);
            assert(p2.drop_last() =~= p1);
            assert(p3.drop_last() =~= p2);
            assert(piece.drop_last() =~= p3);
            assert(sh_read(mid, p1) == (out + init, false, false));
            assert(sh_read(mid, p2) == (out + init, false, true));
            assert(sh_read(mid, p3) == ((out + init).push(c), false, false));
            assert(sh_read(mid, piece) == ((out + init).push(c), true, false));
        } else {
            assert(piece.drop_last() =~= p0);
            assert(sh_read(mid, piece) == ((out + init).push(c), true, false));
        }
        assert((out + init).push(c) =~= out + s);
    }
}

proof fn lemma_sh_read_safe(out: Seq<char>, s: Seq<char>)
    requires
        forall|i: int| 0 <= i < s.len() ==> #[trigger] is_shell_safe(s[i]),
    ensures
        sh_read((out, false, false), s) == (out + s, false, false),
    decreases s.len(),
{
    if s.len() == 0 {
        assert(out + s =~= out);
    } else {
        let init = s.drop_last();
        assert forall|i: int| 0 <= i < init.len() implies #[trigger] is_shell_safe(init[i]) by {
            assert(init[i] == s[i]);
        }
        lemma_sh_read_safe(out, init);
        assert(is_shell_safe(s[s.len() - 1]));
        assert((out + init).push(s.last()) =~= out + s);
    }
}

/// A POSIX shell reads a word escaped by [`shell_escaped`] back as the
/// original characters, as one word with no quote or escape left open.
pub proof fn lemma_shell_escaped_reads_back(s: Seq<char>)
    ensures
        sh_read((Seq::<char>::empty(), false, false), shell_escaped(s)) == (s, false, false),
{
    let e = Seq::<char>::empty();
    if s.len() > 0 && forall|i: int| 0 <= i < s.len() ==> #[trigger] is_shell_safe(s[i]) {
        lemma_sh_read_safe(e, s);
        assert(e + s =~= s);
    } else {
        let q = seq!['\''];
        lemma_sh_read_concat((e, false, false), q + quote_body(s), q);
        lemma_sh_read_concat((e, false, false), q, quote_body(s));
        assert(q.drop_last() =~= e);
        assert(sh_read((e, false, false), e) == (e, false, false));
        assert(sh_read((e, false, false), q) == (e, true, false));
        lemma_sh_read_quote_body(e, s);
        assert(e + s =~= s);
        assert(sh_read((e, false, false), q + quote_body(s)) == (s, true, false));
        assert(sh_read((s, true, false), e) == (s, true, false));
        assert(sh_read((s, true, false), q) == (s, false, false));
    }
}

/// The characters that make a word need quotes for Windows' cmd.exe: `"`,
/// tab, newline and space.
pub open spec fn needs_cmd_quotes(c: char) -> bool {
    c == '"' || c == '\t' || c == '\n' || c == ' '
}

/// Whether the run of backslashes at the front of `s` (possibly empty) is
/// followed by `"` or by the end of `s`.
pub open spec fn backslashes_then_quote_or_end(s: Seq<char>) -> bool
    decreases s.len(),
{
    if s.len() == 0 {
        true
    } else if s[0] == '\\' {
        backslashes_then_quote_or_end(s.drop_first())
    } else {
        s[0] == '"'
    }
}

/// The body of a double-quoted cmd.exe word: `"` is written `\"`, and a
/// backslash is doubled where its run of backslashes ends at a `"` or at the
/// end of the word.
pub open spec fn cmd_quote_body(s: Seq<char>) -> Seq<char>
    decreases s.len(),
{
    if s.len() == 0 {
        seq![]
    } else {
        let c = s[0];
        let rest = s.drop_first();
        (if c == '"' {
            seq!['\\', '"']
        } else if c == '\\' && backslashes_then_quote_or_end(rest) {
            seq!['\\', '\\']
        } else {
            seq![c]
        }) + cmd_quote_body(rest)
    }
}

/// A word escaped for cmd.exe: unchanged where it is nonempty and holds none
/// of the characters that need quotes, double-quoted otherwise.
pub open spec fn cmd_escaped(s: Seq<char>) -> Seq<char> {
    if s.len() > 0 && forall|i: int| 0 <= i < s.len() ==> !#[trigger] needs_cmd_quotes(s[i]) {
        s
    } else {
        seq!['"'] + cmd_quote_body(s) + seq!['"']
    }
}

/// `s` escaped as one word for the shell of the platform: the Unix form
/// ([`shell_escaped`]) or the cmd.exe form ([`cmd_escaped`]).
pub open spec fn escaped_word(s: Seq<char>, w: Seq<char>) -> bool {
    w == shell_escaped(s) || w == cmd_escaped(s)
}

/// `shell_escape::escape`: `s` escaped as one word for a shell. On Unix, or
/// where the environment variable `MSYSTEM` is set, it escapes as
/// `shell_escape::unix::escape` does ([`shell_escaped`]); elsewhere as
/// `shell_escape::windows::escape` does ([`cmd_escaped`]). Which of the two
/// applies rests on the platform and the environment, so only that it is one
/// of them is stated.
#[verifier::external_body]
fn escape(s: &str) -> (r: String)
    ensures
        escaped_word(s@, r@),
{
    shell_escape::escape(Cow::Borrowed(s)).into_owned()
}

/// Where rsync copies the source tree: `{host}:{path}`.
pub fn destination(host: &str, path: &str) -> (r: String)
    ensures
        r@ == host@ + seq![':'] + path@,
{
    let mut r = host.to_owned();
    r.append(":");
    r.append(path);
    proof {
        reveal_strlit(":");
    }
    r
}

/// ` && cargo run --bin stolas-telescope --release`.
pub open spec fn run_suffix() -> Seq<char> {
    seq![
        ' ', '&', '&', ' ', 'c', 'a', 'r', 'g', 'o', ' ', 'r', 'u', 'n', ' ', '-', '-', 'b', 'i', 'n',
        ' ', 's', 't', 'o', 'l', 'a', 's', '-', 't', 'e', 'l', 'e', 's', 'c', 'o', 'p', 'e', ' ', '-',
        '-', 'r', 'e', 'l', 'e', 'a', 's', 'e',
    ]
}

/// The shell command that runs the deployed telescope software: change into
/// the (escaped) deployment path and start it with cargo.
pub fn run_command(path: &str) -> (r: String)
    ensures
        exists|e: Seq<char>|
            escaped_word(path@, e) && r@ == seq!['c', 'd', ' '] + e + run_suffix(),
{
    let mut r = "cd ".to_owned();
    let escaped = escape(path);
    r.append(escaped.as_str());
    r.append(" && cargo run --bin stolas-telescope --release");
    proof {
        reveal_strlit("cd ");
        reveal_strlit(" && cargo run --bin stolas-telescope --release");
    }
    r
}

/// The arguments of the `ssh` call that runs `command` on `host`: the host,
/// then `sh -c` and the command escaped as one word.
pub fn ssh_args(host: &str, command: &str) -> (r: Vec<String>)
    ensures
        r@.len() == 4,
        r@[0]@ == host@,
        r@[1]@ == seq!['s', 'h'],
        r@[2]@ == seq!['-', 'c'],
        escaped_word(command@, r@[3]@),
{
    let mut args: Vec<String> = Vec::new();
    args.push(host.to_owned());
    args.push("sh".to_owned());
    args.push("-c".to_owned());
    args.push(escape(command));
    proof {
        reveal_strlit("sh");
        reveal_strlit("-c");
    }
    args
}

} // verus!
