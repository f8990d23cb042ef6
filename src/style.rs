//! Terminal colour codes and the zero-width markers that shells want around them.

use vstd::prelude::*;

verus! {

/// One entry of the palette; each has an opening and a closing SGR code.
#[derive(Clone, Copy, Debug, PartialEq, Eq)]
pub enum Paint {
    Bold,
    Red,
    Green,
    Yellow,
    Blue,
    Magenta,
    Cyan,
}

/// The SGR parameter that switches a paint on.
pub open spec fn on_code(p: Paint) -> Seq<char> {
    match p {
        Paint::Bold => "1"@,
        Paint::Red => "31"@,
        Paint::Green => "32"@,
        Paint::Yellow => "33"@,
        Paint::Blue => "34"@,
        Paint::Magenta => "35"@,
        Paint::Cyan => "36"@,
    }
}

/// The SGR parameter that switches a paint off again.
pub open spec fn off_code(p: Paint) -> Seq<char> {
    match p {
        Paint::Bold => "22"@,
        _ => "39"@,
    }
}

/// The pair of markers written before and after every control sequence.
pub struct Escapes {
    pub begin: String,
    pub end: String,
}

/// One control sequence, bracketed by the shell's markers.
pub open spec fn control(begin: Seq<char>, end: Seq<char>, code: Seq<char>) -> Seq<char> {
    begin + "\x1b["@ + code + "m"@ + end
}

/// `text` switched on and off again in paint `p`.
pub open spec fn painted(begin: Seq<char>, end: Seq<char>, p: Paint, text: Seq<char>) -> Seq<char> {
    control(begin, end, on_code(p)) + text + control(begin, end, off_code(p))
}

/// `text` in `inner`, the whole wrapped again in bold.
pub open spec fn painted_bold(begin: Seq<char>, end: Seq<char>, inner: Paint, text: Seq<char>) -> Seq<char> {
    painted(begin, end, Paint::Bold, painted(begin, end, inner, text))
}

/// The markers that a shell, known by the file name of its executable, wants.
pub open spec fn markers_for(shell: Option<Seq<char>>) -> (Seq<char>, Seq<char>) {
    if shell == Some("zsh"@) {
        ("%{"@, "%}"@)
    } else if shell == Some("bash"@) {
        ("\\["@, "\\]"@)
    } else {
        (""@, ""@)
    }
}

fn on_str(p: Paint) -> (r: &'static str)
    ensures
        r@ == on_code(p),
{
    match p {
        Paint::Bold => "1",
        Paint::Red => "31",
        Paint::Green => "32",
        Paint::Yellow => "33",
        Paint::Blue => "34",
        Paint::Magenta => "35",
        Paint::Cyan => "36",
    }
}

fn off_str(p: Paint) -> (r: &'static str)
    ensures
        r@ == off_code(p),
{
    match p {
        Paint::Bold => "22",
        _ => "39",
    }
}

impl Escapes {
    /// Maps an optional string to its optional view.
    pub open spec fn view_opt(s: Option<&str>) -> Option<Seq<char>> {
        match s {
            Some(t) => Some(t@),
            None => None,
        }
    }

    /// No markers at all: control sequences are written bare.
    pub fn none() -> (r: Escapes)
        ensures
            r.begin@ == Seq::<char>::empty(),
            r.end@ == Seq::<char>::empty(),
    {
        Escapes { begin: String::new(), end: String::new() }
    }

    /// Chooses the markers for the shell whose executable has file name `shell`:
    /// zsh's `%{ %}`, bash's `\[ \]`, and none for any other or an unknown shell.
    pub fn for_shell(shell: Option<&str>) -> (r: Escapes)
        ensures
            (r.begin@, r.end@) == markers_for(Self::view_opt(shell)),
    {
        proof {
            reveal_strlit("zsh");
            reveal_strlit("bash");
        }
        let (b, e): (&str, &str) = match shell {
            Some(s) => {
                if str_eq(s, "zsh") {
                    ("%{", "%}")
                } else if str_eq(s, "bash") {
                    ("\\[", "\\]")
                } else {
                    ("", "")
                }
            },
            None => ("", ""),
        };
        Escapes { begin: b.to_string(), end: e.to_string() }
    }

    /// Appends one control sequence with parameter `code` to `out`.
    fn push_control(&self, out: &mut String, code: &str)
        ensures
            final(out)@ == old(out)@ + control(self.begin@, self.end@, code@),
    {
        out.append(self.begin.as_str());
        out.append("\x1b[");
        out.append(code);
        out.append("m");
        out.append(self.end.as_str());
    }

    /// Appends `text` in paint `p` to `out`.
    pub fn paint_into(&self, out: &mut String, p: Paint, text: &str)
        ensures
            final(out)@ == old(out)@ + painted(self.begin@, self.end@, p, text@),
    {
        self.push_control(out, on_str(p));
        out.append(text);
        self.push_control(out, off_str(p));
    }

    /// `text` in paint `p`.
    pub fn paint(&self, p: Paint, text: &str) -> (r: String)
        ensures
            r@ == painted(self.begin@, self.end@, p, text@),
    {
        let mut out = String::new();
        self.paint_into(&mut out, p, text);
        out
    }

    /// `text` in paint `inner`, wrapped again in bold.
    pub fn paint_bold(&self, inner: Paint, text: &str) -> (r: String)
        ensures
            r@ == painted_bold(self.begin@, self.end@, inner, text@),
    {
        let t = self.paint(inner, text);
        self.paint(Paint::Bold, t.as_str())
    }
}

/// Whether two strings hold the same characters.
pub fn str_eq(a: &str, b: &str) -> (r: bool)
    ensures
        r == (a@ == b@),
{
    let n = a.unicode_len();
    if n != b.unicode_len() {
        return false;
    }
    let mut i: usize = 0;
    while i < n
        invariant
            n == a@.len(),
            n == b@.len(),
            i <= n,
            a@.take(i as int) =~= b@.take(i as int),
        decreases n - i,
    {
        if a.get_char(i) != b.get_char(i) {
            return false;
        }
        assert(a@.take(i + 1) =~= a@.take(i as int).push(a@[i as int]));
        assert(b@.take(i + 1) =~= b@.take(i as int).push(b@[i as int]));
        i += 1;
    }
    assert(a@ =~= a@.take(n as int));
    assert(b@ =~= b@.take(n as int));
    true
}

} // verus!
