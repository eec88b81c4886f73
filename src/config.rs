//! The parameter store: the ordered list of raw `key=value` entries that
//! mirrors the configuration file, with its text format.
use crate::text::{
    chars_of, find_char, find_in, is_ws, lemma_find_char_at, lemma_trimmed_ends, lemma_trimmed_id,
    trim, trim_end, trim_range, trim_start, trimmed,
};
use vstd::prelude::*;

verus! {

/// One configuration line: a key and its value.
#[derive(Clone, Debug)]
pub struct Param {
    pub key: String,
    pub value: String,
}

impl View for Param {
    type V = (Seq<char>, Seq<char>);

    open spec fn view(&self) -> (Seq<char>, Seq<char>) {
        (self.key@, self.value@)
    }
}

impl Param {
    pub fn new(key: &str, value: &str) -> (r: Param)
        ensures
            r@ == (key@, value@),
    {
        Param { key: key.to_owned(), value: value.to_owned() }
    }

    /// The value as it is written to the file: without surrounding whitespace.
    pub fn formatted_value(&self) -> (r: String)
        ensures
            r@ == trimmed(self.value@),
    {
        trim(self.value.as_str())
    }
}

/// The whole configuration file, as an ordered list of entries. Keys need
/// not be unique.
#[derive(Clone, Debug)]
pub struct Config {
    pub params: Vec<Param>,
}

impl View for Config {
    type V = Seq<(Seq<char>, Seq<char>)>;

    open spec fn view(&self) -> Seq<(Seq<char>, Seq<char>)> {
        self.params@.map_values(|p: Param| p@)
    }
}

/// `v` with every `\"` replaced by `"`, scanning from the left.
pub open spec fn unescape_quotes(v: Seq<char>) -> Seq<char>
    decreases v.len(),
{
    if v.len() == 0 {
        v
    } else if v.len() >= 2 && v[0] == '\\' && v[1] == '"' {
        seq!['"'] + unescape_quotes(v.subrange(2, v.len() as int))
    } else {
        seq![v[0]] + unescape_quotes(v.drop_first())
    }
}

/// Whether `v` is wrapped in a matching pair of single or double quotes.
pub open spec fn is_quoted(v: Seq<char>) -> bool {
    v.len() >= 2 && ((v[0] == '"' && v.last() == '"') || (v[0] == '\'' && v.last() == '\''))
}

/// A value as it is read: quotes around it are dropped and `\"` inside them
/// becomes `"`.
pub open spec fn unquote(v: Seq<char>) -> Seq<char> {
    if is_quoted(v) {
        unescape_quotes(v.subrange(1, v.len() - 1))
    } else {
        v
    }
}

/// The entry that one line (without its line break) holds, if any. Blank
/// lines, comments and lines without `=` hold none.
pub open spec fn parse_line(l: Seq<char>) -> Option<(Seq<char>, Seq<char>)> {
    let t = trimmed(l);
    let e = find_char(t, '=');
    if t.len() == 0 || t[0] == '#' || e >= t.len() {
        None
    } else {
        Some((trimmed(t.subrange(0, e)), unquote(trimmed(t.subrange(e + 1, t.len() as int)))))
    }
}

/// The entries of a whole file, in line order.
pub open spec fn parse_text(s: Seq<char>) -> Seq<(Seq<char>, Seq<char>)>
    decreases s.len(),
{
    let e = find_char(s, '\n');
    let rest = if 0 <= e < s.len() {
        parse_text(s.subrange(e + 1, s.len() as int))
    } else {
        Seq::empty()
    };
    match parse_line(s.subrange(0, e)) {
        Some(p) => seq![p] + rest,
        None => rest,
    }
}

/// The line that stores one entry.
pub open spec fn render_line(p: (Seq<char>, Seq<char>)) -> Seq<char> {
    p.0 + seq!['='] + trimmed(p.1) + seq!['\n']
}

/// The file that stores a list of entries.
pub open spec fn render(ps: Seq<(Seq<char>, Seq<char>)>) -> Seq<char>
    decreases ps.len(),
{
    if ps.len() == 0 {
        Seq::empty()
    } else {
        render_line(ps[0]) + render(ps.drop_first())
    }
}

/// `cs[lo..hi]` with `\"` turned into `"`; `text` holds the same characters.
fn unescape_range(text: &str, cs: &Vec<char>, lo: usize, hi: usize) -> (r: String)
    requires
        text@ == cs@,
        lo <= hi <= cs@.len(),
    ensures
        r@ == unescape_quotes(cs@.subrange(lo as int, hi as int)),
{
    let ghost s = cs@;
    let mut out = String::new();
    let mut seg = lo;
    let mut k = lo;
    while k < hi
        invariant
            s == cs@,
            text@ == s,
            lo <= seg <= k <= hi <= s.len(),
            out@ + s.subrange(seg as int, k as int) + unescape_quotes(s.subrange(k as int, hi as int))
                == unescape_quotes(s.subrange(lo as int, hi as int)),
        decreases hi - k,
    {
        let ghost rest = s.subrange(k as int, hi as int);
        let ghost done = out@;
        assert(rest[0] == s[k as int]);
        if k + 1 < hi {
            assert(rest[1] == s[k + 1]);
        }
        if k + 1 < hi && cs[k] == '\\' && cs[k + 1] == '"' {
            assert(rest.subrange(2, rest.len() as int) =~= s.subrange(k + 2, hi as int));
            let piece = text.substring_char(seg, k);
            out.append(piece);
            out.append("\"");
            proof {
                reveal_strlit("\"");
            }
            assert("\""@ =~= seq!['"']);
            assert(s.subrange(k + 2, k + 2) =~= Seq::<char>::empty());
            assert(done + s.subrange(seg as int, k as int) + "\""@ + s.subrange(k + 2, k + 2)
                + unescape_quotes(s.subrange(k + 2, hi as int)) =~= done + s.subrange(
                seg as int,
                k as int,
            ) + unescape_quotes(rest));
            k = k + 2;
            seg = k;
        } else {
            assert(rest.drop_first() =~= s.subrange(k + 1, hi as int));
            assert(s.subrange(seg as int, k as int).push(s[k as int]) =~= s.subrange(
                seg as int,
                k + 1,
            ));
            assert(done + s.subrange(seg as int, k + 1) + unescape_quotes(s.subrange(k + 1, hi as int))
                =~= done + s.subrange(seg as int, k as int) + unescape_quotes(rest));
            k = k + 1;
        }
    }
    let piece = text.substring_char(seg, hi);
    out.append(piece);
    assert(s.subrange(hi as int, hi as int) =~= Seq::<char>::empty());
    out
}

/// The value that `cs[lo..hi]` stands for once quotes are dropped.
fn unquote_range(text: &str, cs: &Vec<char>, lo: usize, hi: usize) -> (r: String)
    requires
        text@ == cs@,
        lo <= hi <= cs@.len(),
    ensures
        r@ == unquote(cs@.subrange(lo as int, hi as int)),
{
    let ghost v = cs@.subrange(lo as int, hi as int);
    if hi - lo >= 2 && ((cs[lo] == '"' && cs[hi - 1] == '"') || (cs[lo] == '\'' && cs[hi - 1]
        == '\'')) {
        assert(v.subrange(1, v.len() - 1) =~= cs@.subrange(lo + 1, hi - 1));
        unescape_range(text, cs, lo + 1, hi - 1)
    } else {
        text.substring_char(lo, hi).to_owned()
    }
}

/// The entry that the line `cs[lo..hi]` holds, if any.
fn parse_line_range(text: &str, cs: &Vec<char>, lo: usize, hi: usize) -> (r: Option<Param>)
    requires
        text@ == cs@,
        lo <= hi <= cs@.len(),
    ensures
        match r {
            Some(p) => parse_line(cs@.subrange(lo as int, hi as int)) == Some(p@),
            None => parse_line(cs@.subrange(lo as int, hi as int)) is None,
        },
{
    let ghost s = cs@;
    let ghost l = s.subrange(lo as int, hi as int);
    let (a, b) = trim_range(cs, lo, hi);
    let ghost t = s.subrange(a as int, b as int);
    if a == b || cs[a] == '#' {
        return None;
    }
    let e = find_in(cs, a, b, '=');
    if e == b {
        return None;
    }
    assert(t.subrange(0, e - a) =~= s.subrange(a as int, e as int));
    assert(t.subrange(e - a + 1, t.len() as int) =~= s.subrange(e + 1, b as int));
    let (ka, kb) = trim_range(cs, a, e);
    let (va, vb) = trim_range(cs, e + 1, b);
    let key = text.substring_char(ka, kb).to_owned();
    let value = unquote_range(text, cs, va, vb);
    Some(Param { key, value })
}

impl Config {
    /// The entries of a configuration file's text, in line order.
    pub fn from_text(text: &str) -> (r: Config)
        ensures
            r@ == parse_text(text@),
    {
        let cs = chars_of(text);
        let n = cs.len();
        let ghost s = cs@;
        let mut params: Vec<Param> = Vec::new();
        let mut start: usize = 0;
        assert(s.subrange(0, n as int) =~= s);
        assert(params@.map_values(|p: Param| p@) =~= Seq::empty());
        while start < n
            invariant
                s == cs@,
                text@ == s,
                n == s.len(),
                start <= n,
                params@.map_values(|p: Param| p@) + parse_text(s.subrange(start as int, n as int))
                    == parse_text(s),
            decreases n - start,
        {
            let ghost rest = s.subrange(start as int, n as int);
            let e = find_in(&cs, start, n, '\n');
            assert(rest.subrange(0, e - start) =~= s.subrange(start as int, e as int));
            let ghost tail = if e < n {
                parse_text(s.subrange(e + 1, n as int))
            } else {
                Seq::empty()
            };
            if e < n {
                assert(rest.subrange(e - start + 1, rest.len() as int) =~= s.subrange(
                    e + 1,
                    n as int,
                ));
            }
            assert(parse_text(rest) == match parse_line(s.subrange(start as int, e as int)) {
                Some(p) => seq![p] + tail,
                None => tail,
            });
            let item = parse_line_range(text, &cs, start, e);
            let ghost before = params@.map_values(|p: Param| p@);
            match item {
                Some(p) => {
                    params.push(p);
                    assert(params@.map_values(|p: Param| p@) =~= before.push(p@));
                    assert(before.push(p@) + tail =~= before + (seq![p@] + tail));
                },
                None => {},
            }
            if e < n {
                start = e + 1;
            } else {
                start = n;
                proof {
                    lemma_parse_text_empty(s.subrange(n as int, n as int));
                }
            }
        }
        proof {
            lemma_parse_text_empty(s.subrange(n as int, n as int));
        }
        assert(params@.map_values(|p: Param| p@) + Seq::empty() =~= params@.map_values(
            |p: Param| p@,
        ));
        Config { params }
    }
}

impl Config {
    /// The file text that stores the entries: one `key=value` line each, in
    /// list order, with the value trimmed and never quoted.
    pub fn to_text(&self) -> (r: String)
        ensures
            r@ == render(self@),
    {
        let ghost v = self@;
        let n = self.params.len();
        let mut out = String::new();
        let mut i: usize = 0;
        assert(v.subrange(0, n as int) =~= v);
        while i < n
            invariant
                v == self@,
                n == v.len(),
                i <= n,
                out@ + render(v.subrange(i as int, n as int)) == render(v),
            decreases n - i,
        {
            let ghost done = out@;
            let p = &self.params[i];
            assert(v.subrange(i as int, n as int).drop_first() =~= v.subrange(i + 1, n as int));
            assert(v.subrange(i as int, n as int)[0] == p@);
            out.append(p.key.as_str());
            out.append("=");
            let value = p.formatted_value();
            out.append(value.as_str());
            out.append("\n");
            proof {
                reveal_strlit("=");
                reveal_strlit("\n");
                assert("="@ =~= seq!['=']);
                assert("\n"@ =~= seq!['\n']);
                assert(done + p.key@ + "="@ + value@ + "\n"@ =~= done + render_line(p@));
                assert(done + render_line(p@) + render(v.subrange(i + 1, n as int)) =~= done + (
                render_line(p@) + render(v.subrange(i + 1, n as int))));
            }
            i += 1;
        }
        assert(out@ + render(v.subrange(n as int, n as int)) =~= out@);
        out
    }

    /// Gives an empty store two starting entries, a font and a background
    /// colour; a store with entries is left as it is.
    pub fn seed_defaults(&mut self)
        ensures
            old(self)@.len() == 0 ==> final(self)@ == seq![
                ("font"@, "monospace 10"@),
                ("background-color"@, "#1d1f21"@),
            ],
            old(self)@.len() > 0 ==> final(self)@ == old(self)@,
    {
        if self.params.len() == 0 {
            self.add_param("font", "monospace 10");
            self.add_param("background-color", "#1d1f21");
            assert(self@ =~= seq![("font"@, "monospace 10"@), ("background-color"@, "#1d1f21"@)]);
        }
    }

    /// Appends an entry at the end.
    pub fn add_param(&mut self, key: &str, value: &str)
        ensures
            final(self)@ == old(self)@.push((key@, value@)),
    {
        let p = Param::new(key, value);
        self.params.push(p);
        assert(self@ =~= old(self)@.push((key@, value@)));
    }

    /// Replaces the value of the entry at `idx`, keeping its key.
    pub fn set_value(&mut self, idx: usize, value: &str)
        requires
            idx < old(self)@.len(),
        ensures
            final(self)@ == old(self)@.update(idx as int, (old(self)@[idx as int].0, value@)),
    {
        let key = self.params[idx].key.clone();
        self.params.set(idx, Param { key, value: value.to_owned() });
        assert(self@ =~= old(self)@.update(idx as int, (old(self)@[idx as int].0, value@)));
    }

    /// Removes the entry at `idx`; an index past the end changes nothing.
    pub fn remove_param(&mut self, idx: usize)
        ensures
            idx < old(self)@.len() ==> final(self)@ == old(self)@.remove(idx as int),
            idx >= old(self)@.len() ==> final(self)@ == old(self)@,
    {
        if idx < self.params.len() {
            self.params.remove(idx);
            assert(self@ =~= old(self)@.remove(idx as int));
        }
    }

    /// The text of the desktop notification that reports a change.
    pub fn notify_message(key: &str, value: &str) -> (r: String)
        ensures
            r@ == key@ + " = "@ + value@,
    {
        let mut out = key.to_owned();
        out.append(" = ");
        out.append(value);
        out
    }

    /// The outcome of a reload command that ran: on success its trimmed
    /// standard output, on failure its trimmed standard error.
    pub fn reload_outcome(success: bool, stdout: &str, stderr: &str) -> (r: Result<String, String>)
        ensures
            success ==> (r matches Ok(m) && m@ == trimmed(stdout@)),
            !success ==> (r matches Err(m) && m@ == trimmed(stderr@)),
    {
        if success {
            Ok(trim(stdout))
        } else {
            Err(trim(stderr))
        }
    }
}

/// An entry that survives being saved and loaded again unchanged: the key
/// holds no `=` and does not start with `#`, neither part holds a line break
/// or surrounding whitespace, and the value is not wrapped in quotes.
pub open spec fn is_plain_param(p: (Seq<char>, Seq<char>)) -> bool {
    &&& !p.0.contains('=')
    &&& !p.0.contains('\n')
    &&& !p.1.contains('\n')
    &&& trimmed(p.0) == p.0
    &&& trimmed(p.1) == p.1
    &&& !(p.0.len() > 0 && p.0[0] == '#')
    &&& !is_quoted(p.1)
}

proof fn lemma_parse_plain_line(p: (Seq<char>, Seq<char>))
    requires
        is_plain_param(p),
    ensures
        parse_line(p.0 + seq!['='] + p.1) == Some(p),
{
    let (k, v) = p;
    let l = k + seq!['='] + v;
    if k.len() > 0 {
        lemma_trimmed_ends(k);
    }
    if v.len() > 0 {
        lemma_trimmed_ends(v);
    }
    assert(l[0] == if k.len() > 0 { k[0] } else { '=' });
    assert(l.last() == if v.len() > 0 { v.last() } else { '=' });
    assert(!is_ws('='));
    lemma_trimmed_id(l);
    assert forall|i: int| 0 <= i < k.len() implies l[i] != '=' by {
        assert(l[i] == k[i]);
        if k[i] == '=' {
            assert(k.contains('='));
        }
    }
    lemma_find_char_at(l, '=', k.len() as int);
    assert(l.subrange(0, k.len() as int) =~= k);
    assert(l.subrange(k.len() as int + 1, l.len() as int) =~= v);
}

/// Saving a list of plain entries and loading the text again gives back the
/// same entries in the same order.
pub proof fn lemma_save_load_round_trip(ps: Seq<(Seq<char>, Seq<char>)>)
    requires
        forall|i: int| 0 <= i < ps.len() ==> is_plain_param(#[trigger] ps[i]),
    ensures
        parse_text(render(ps)) == ps,
    decreases ps.len(),
{
    let s = render(ps);
    if ps.len() == 0 {
        lemma_parse_text_empty(s);
    } else {
        let (k, v) = ps[0];
        let rest = ps.drop_first();
        assert forall|i: int| 0 <= i < rest.len() implies is_plain_param(#[trigger] rest[i]) by {
            assert(rest[i] == ps[i + 1]);
        }
        lemma_save_load_round_trip(rest);
        assert(is_plain_param(ps[0]));
        let l = k + seq!['='] + v;
        assert(s =~= l + seq!['\n'] + render(rest));
        assert forall|i: int| 0 <= i < l.len() implies s[i] != '\n' by {
            assert(s[i] == l[i]);
            if i < k.len() {
                assert(l[i] == k[i]);
                if k[i] == '\n' {
                    assert(k.contains('\n'));
                }
            } else if i > k.len() {
                assert(l[i] == v[i - k.len() - 1]);
                if v[i - k.len() - 1] == '\n' {
                    assert(v.contains('\n'));
                }
            }
        }
        lemma_find_char_at(s, '\n', l.len() as int);
        assert(s.subrange(0, l.len() as int) =~= l);
        assert(s.subrange(l.len() as int + 1, s.len() as int) =~= render(rest));
        lemma_parse_plain_line(ps[0]);
        assert(seq![ps[0]] + rest =~= ps);
    }
}

proof fn lemma_parse_text_empty(s: Seq<char>)
    requires
        s.len() == 0,
    ensures
        parse_text(s) == Seq::<(Seq<char>, Seq<char>)>::empty(),
{
    assert(trim_start(s) == s);
    assert(trim_end(s) == s);
    assert(s.subrange(0, 0) =~= s);
}

} // verus!
