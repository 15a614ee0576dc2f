//! Transcript rendering and history-file naming. Writing the files is the
//! binary's job; everything here is pure text construction.

use vstd::prelude::*;

use vstd::string::StringExecFns;

use crate::json_render::dec_digits;
use crate::json_render::json_escaped;
use crate::json_render::push_escaped;
use crate::json_render::push_u32;
use crate::message::ChatMessage;
use crate::message::MessageRole;
use crate::request::join_sep;
use crate::request::join_sep_exec;
use crate::request::opt_str_view;
use crate::text::chars_string;
use crate::text::push_all;
use crate::text::str_chars;
use crate::text::views_of;

verus! {

/// Which on-disk format a transcript is saved in.
#[derive(Clone, Copy, Debug, PartialEq, Eq, Structural)]
pub enum HistoryFormat {
    Json,
    Markdown,
}

impl HistoryFormat {
    /// The file extension of the format.
    pub fn extension(&self) -> (r: &'static str)
        ensures
            self is Json ==> r@ == "json"@,
            self is Markdown ==> r@ == "md"@,
    {
        match self {
            HistoryFormat::Json => "json",
            HistoryFormat::Markdown => "md",
        }
    }
}

/// The extension of a format, as a sequence.
pub open spec fn extension_spec(f: HistoryFormat) -> Seq<char> {
    match f {
        HistoryFormat::Json => "json"@,
        HistoryFormat::Markdown => "md"@,
    }
}

/// The transcript role label of a message role.
pub open spec fn role_label(r: MessageRole) -> Seq<char> {
    match r {
        MessageRole::System => "system"@,
        MessageRole::User => "user"@,
        MessageRole::Assistant => "assistant"@,
    }
}

/// The lower-case form of an ASCII capital letter; any other character is
/// left as it is.
pub open spec fn lower_ascii(c: char) -> char {
    if c == 'A' {
        'a'
    } else if c == 'B' {
        'b'
    } else if c == 'C' {
        'c'
    } else if c == 'D' {
        'd'
    } else if c == 'E' {
        'e'
    } else if c == 'F' {
        'f'
    } else if c == 'G' {
        'g'
    } else if c == 'H' {
        'h'
    } else if c == 'I' {
        'i'
    } else if c == 'J' {
        'j'
    } else if c == 'K' {
        'k'
    } else if c == 'L' {
        'l'
    } else if c == 'M' {
        'm'
    } else if c == 'N' {
        'n'
    } else if c == 'O' {
        'o'
    } else if c == 'P' {
        'p'
    } else if c == 'Q' {
        'q'
    } else if c == 'R' {
        'r'
    } else if c == 'S' {
        's'
    } else if c == 'T' {
        't'
    } else if c == 'U' {
        'u'
    } else if c == 'V' {
        'v'
    } else if c == 'W' {
        'w'
    } else if c == 'X' {
        'x'
    } else if c == 'Y' {
        'y'
    } else if c == 'Z' {
        'z'
    } else {
        c
    }
}

fn lower_ascii_exec(c: char) -> (r: char)
    ensures
        r == lower_ascii(c),
{
    match c {
        'A' => 'a',
        'B' => 'b',
        'C' => 'c',
        'D' => 'd',
        'E' => 'e',
        'F' => 'f',
        'G' => 'g',
        'H' => 'h',
        'I' => 'i',
        'J' => 'j',
        'K' => 'k',
        'L' => 'l',
        'M' => 'm',
        'N' => 'n',
        'O' => 'o',
        'P' => 'p',
        'Q' => 'q',
        'R' => 'r',
        'S' => 's',
        'T' => 't',
        'U' => 'u',
        'V' => 'v',
        'W' => 'w',
        'X' => 'x',
        'Y' => 'y',
        'Z' => 'z',
        other => other,
    }
}

/// How one provider-name character is written into a file name: lower-case
/// letters, digits and dashes stand as themselves, capitals are lowered, and
/// anything else becomes a dash.
pub open spec fn sanitize_char(c: char) -> char {
    if ('a' <= c && c <= 'z') || ('0' <= c && c <= '9') || c == '-' {
        c
    } else if 'A' <= c && c <= 'Z' {
        lower_ascii(c)
    } else {
        '-'
    }
}

/// Index of the first character at or after `i` that is not a dash.
pub open spec fn skip_dash_from(s: Seq<char>, i: int) -> int
    decreases s.len() - i,
{
    if i < 0 || i >= s.len() {
        s.len() as int
    } else if s[i] == '-' {
        skip_dash_from(s, i + 1)
    } else {
        i
    }
}

proof fn lemma_skip_dash_bounds(s: Seq<char>, i: int)
    requires
        0 <= i <= s.len(),
    ensures
        i <= skip_dash_from(s, i) <= s.len(),
    decreases s.len() - i,
{
    if i < s.len() && s[i] == '-' {
        lemma_skip_dash_bounds(s, i + 1);
    }
}

/// The sequence with trailing dashes removed.
pub open spec fn trim_dash_end(s: Seq<char>) -> Seq<char>
    decreases s.len(),
{
    if s.len() > 0 && s.last() == '-' {
        trim_dash_end(s.drop_last())
    } else {
        s
    }
}

/// The provider-name chunk of a history file name: the name mapped character
/// by character, dashes trimmed from both ends, and `session` when nothing
/// is left.
pub open spec fn sanitized_spec(s: Seq<char>) -> Seq<char> {
    let mapped = s.map_values(|c: char| sanitize_char(c));
    let t = trim_dash_end(mapped.skip(skip_dash_from(mapped, 0)));
    if t.len() == 0 {
        "session"@
    } else {
        t
    }
}

/// Turn a provider name into a file-name chunk.
pub fn sanitized_provider(provider: &str) -> (r: String)
    ensures
        r@ == sanitized_spec(provider@),
{
    let cs = str_chars(provider);
    let n: usize = cs.len();
    let mut mapped: Vec<char> = Vec::new();
    let mut i: usize = 0;
    while i < n
        invariant
            0 <= i <= n,
            n == cs@.len(),
            cs@ == provider@,
            mapped@ == cs@.take(i as int).map_values(|c: char| sanitize_char(c)),
        decreases n - i,
    {
        let c = cs[i];
        let m = if ('a' <= c && c <= 'z') || ('0' <= c && c <= '9') || c == '-' {
            c
        } else if 'A' <= c && c <= 'Z' {
            lower_ascii_exec(c)
        } else {
            '-'
        };
        mapped.push(m);
        proof {
            assert(mapped@ =~= cs@.take(i + 1 as int).map_values(|cc: char| sanitize_char(cc)));
        }
        i = i + 1;
    }
    proof {
        assert(cs@.take(n as int) =~= cs@);
    }
    let ghost mv = mapped@;
    let mut start: usize = 0;
    while start < mapped.len() && mapped[start] == '-'
        invariant
            0 <= start <= mapped@.len(),
            mapped@ == mv,
            skip_dash_from(mv, 0) == skip_dash_from(mv, start as int),
        decreases mapped@.len() - start,
    {
        start = start + 1;
    }
    proof {
        lemma_skip_dash_bounds(mv, start as int);
        assert(skip_dash_from(mv, start as int) == start as int);
    }
    let mut end: usize = mapped.len();
    proof {
        assert(mv.skip(start as int) =~= mv.subrange(start as int, mv.len() as int));
    }
    while end > start && mapped[end - 1] == '-'
        invariant
            start <= end <= mv.len(),
            mapped@ == mv,
            start == skip_dash_from(mv, 0),
            trim_dash_end(mv.skip(start as int)) == trim_dash_end(
                mv.subrange(start as int, end as int),
            ),
        decreases end,
    {
        proof {
            let cur = mv.subrange(start as int, end as int);
            assert(cur.last() == mv[end - 1]);
            assert(cur.drop_last() =~= mv.subrange(start as int, end - 1 as int));
        }
        end = end - 1;
    }
    proof {
        let cur = mv.subrange(start as int, end as int);
        if end > start {
            assert(cur.last() == mv[end - 1]);
        }
        assert(trim_dash_end(cur) == cur);
    }
    if end == start {
        let r = "session".to_owned();
        r
    } else {
        let out = crate::text::subrange_vec(mapped.as_slice(), start, end);
        chars_string(out.as_slice())
    }
}

/// One markdown transcript entry.
pub open spec fn markdown_entry(role: Seq<char>, content: Seq<char>) -> Seq<char> {
    "## "@ + role + "\n\n"@ + content + "\n\n"@
}

/// Append one markdown entry to a transcript buffer.
pub fn append_markdown_entry(buf: &mut String, role: &str, content: &str)
    ensures
        final(buf)@ == old(buf)@ + markdown_entry(role@, content@),
{
    let mut out = str_chars("## ");
    push_all(&mut out, str_chars(role).as_slice());
    push_all(&mut out, str_chars("\n\n").as_slice());
    push_all(&mut out, str_chars(content).as_slice());
    push_all(&mut out, str_chars("\n\n").as_slice());
    let piece = chars_string(out.as_slice());
    buf.append(piece.as_str());
    proof {
        assert(old(buf)@ + (((("## "@ + role@) + "\n\n"@) + content@) + "\n\n"@) =~= old(buf)@
            + markdown_entry(role@, content@));
    }
}

/// The markdown entries of a history, in order.
pub open spec fn entries_md(msgs: Seq<ChatMessage>) -> Seq<char>
    decreases msgs.len(),
{
    if msgs.len() == 0 {
        Seq::empty()
    } else {
        entries_md(msgs.drop_last()) + markdown_entry(
            role_label(msgs.last().role),
            msgs.last().content@,
        )
    }
}

/// The whole markdown transcript: a heading, the system prompt's entry when
/// there is one, then every turn's entry in order.
pub open spec fn markdown_spec(system: Option<Seq<char>>, msgs: Seq<ChatMessage>) -> Seq<char> {
    "# Chat Transcript\n\n"@ + (match system {
        Some(s) => markdown_entry("system"@, s),
        None => Seq::empty(),
    }) + entries_md(msgs)
}

/// Render a history as a markdown transcript.
pub fn render_markdown_payload(system: Option<&str>, messages: &Vec<ChatMessage>) -> (r: String)
    ensures
        r@ == markdown_spec(opt_str_view(system), messages@),
{
    let mut buf = "# Chat Transcript\n\n".to_owned();
    match system {
        Some(s) => {
            append_markdown_entry(&mut buf, "system", s);
        },
        None => {},
    }
    let ghost head = buf@;
    proof {
        assert(head =~= "# Chat Transcript\n\n"@ + (match opt_str_view(system) {
            Some(s) => markdown_entry("system"@, s),
            None => Seq::<char>::empty(),
        }));
    }
    let n: usize = messages.len();
    let mut i: usize = 0;
    while i < n
        invariant
            0 <= i <= n,
            n == messages@.len(),
            head == "# Chat Transcript\n\n"@ + (match opt_str_view(system) {
                Some(s) => markdown_entry("system"@, s),
                None => Seq::<char>::empty(),
            }),
            buf@ == head + entries_md(messages@.take(i as int)),
        decreases n - i,
    {
        proof {
            assert(messages@.take(i + 1 as int).drop_last() =~= messages@.take(i as int));
            assert(messages@.take(i + 1 as int).last() == messages@[i as int]);
        }
        let m = &messages[i];
        append_markdown_entry(&mut buf, m.role.as_str(), m.content.as_str());
        proof {
            assert(buf@ =~= head + entries_md(messages@.take(i + 1 as int)));
        }
        i = i + 1;
    }
    proof {
        assert(messages@.take(n as int) =~= messages@);
        assert(head + entries_md(messages@) =~= markdown_spec(opt_str_view(system), messages@));
    }
    buf
}

/// One JSON transcript entry.
pub open spec fn transcript_obj(role: Seq<char>, content: Seq<char>) -> Seq<char> {
    "{\"role\":\""@ + role + "\",\"content\":\""@ + json_escaped(content) + "\"}"@
}

/// The JSON transcript: an array of role/content objects, the system
/// prompt's first when there is one.
pub open spec fn json_payload_spec(system: Option<Seq<char>>, msgs: Seq<ChatMessage>) -> Seq<
    char,
> {
    "["@ + join_sep(
        (match system {
            Some(s) => seq![transcript_obj("system"@, s)],
            None => Seq::<Seq<char>>::empty(),
        }) + msgs.map_values(|m: ChatMessage| transcript_obj(role_label(m.role), m.content@)),
        ","@,
    ) + "]"@
}

fn render_transcript_obj(role: &str, content: &str) -> (r: Vec<char>)
    ensures
        r@ == transcript_obj(role@, content@),
{
    let mut out = str_chars("{\"role\":\"");
    push_all(&mut out, str_chars(role).as_slice());
    push_all(&mut out, str_chars("\",\"content\":\"").as_slice());
    push_escaped(&mut out, str_chars(content).as_slice());
    push_all(&mut out, str_chars("\"}").as_slice());
    assert(out@ =~= transcript_obj(role@, content@));
    out
}

/// Render a history as a JSON transcript.
pub fn build_json_payload(system: Option<&str>, messages: &Vec<ChatMessage>) -> (r: Result<
    String,
    (),
>)
    ensures
        r matches Ok(s) && s@ == json_payload_spec(opt_str_view(system), messages@),
{
    let mut items: Vec<Vec<char>> = Vec::new();
    match system {
        Some(s) => {
            items.push(render_transcript_obj("system", s));
        },
        None => {},
    }
    let ghost head = views_of(items@);
    proof {
        assert(head =~= match opt_str_view(system) {
            Some(s) => seq![transcript_obj("system"@, s)],
            None => Seq::<Seq<char>>::empty(),
        });
    }
    let n: usize = messages.len();
    let mut i: usize = 0;
    while i < n
        invariant
            0 <= i <= n,
            n == messages@.len(),
            head == (match opt_str_view(system) {
                Some(s) => seq![transcript_obj("system"@, s)],
                None => Seq::<Seq<char>>::empty(),
            }),
            views_of(items@) == head + messages@.take(i as int).map_values(
                |m: ChatMessage| transcript_obj(role_label(m.role), m.content@),
            ),
        decreases n - i,
    {
        let m = &messages[i];
        let ghost items0 = views_of(items@);
        items.push(render_transcript_obj(m.role.as_str(), m.content.as_str()));
        proof {
            assert(views_of(items@) =~= items0.push(
                transcript_obj(role_label(messages@[i as int].role), messages@[i as int].content@),
            ));
            assert(views_of(items@) =~= head + messages@.take(i + 1 as int).map_values(
                |mm: ChatMessage| transcript_obj(role_label(mm.role), mm.content@),
            ));
        }
        i = i + 1;
    }
    proof {
        assert(messages@.take(n as int) =~= messages@);
    }
    let joined = join_sep_exec(&items, str_chars(",").as_slice());
    let mut out = str_chars("[");
    push_all(&mut out, joined.as_slice());
    push_all(&mut out, str_chars("]").as_slice());
    proof {
        assert(out@ =~= json_payload_spec(opt_str_view(system), messages@));
    }
    Ok(chars_string(out.as_slice()))
}

/// A number rendered as exactly two digits (values above 99 keep all their
/// digits).
pub open spec fn pad2(n: int) -> Seq<char> {
    if n < 10 {
        seq!['0'] + dec_digits(n)
    } else {
        dec_digits(n)
    }
}

/// A number rendered as at least four digits.
pub open spec fn pad4(n: int) -> Seq<char> {
    if n < 10 {
        seq!['0', '0', '0'] + dec_digits(n)
    } else if n < 100 {
        seq!['0', '0'] + dec_digits(n)
    } else if n < 1000 {
        seq!['0'] + dec_digits(n)
    } else {
        dec_digits(n)
    }
}

fn push_pad2(out: &mut Vec<char>, n: u32)
    ensures
        final(out)@ == old(out)@ + pad2(n as int),
{
    if n < 10 {
        out.push('0');
    }
    push_u32(out, n);
    assert(out@ =~= old(out)@ + pad2(n as int));
}

fn push_pad4(out: &mut Vec<char>, n: u32)
    ensures
        final(out)@ == old(out)@ + pad4(n as int),
{
    if n < 10 {
        out.push('0');
        out.push('0');
        out.push('0');
    } else if n < 100 {
        out.push('0');
        out.push('0');
    } else if n < 1000 {
        out.push('0');
    }
    push_u32(out, n);
    assert(out@ =~= old(out)@ + pad4(n as int));
}

/// The timestamp chunk of a history file name: date, a dash, time, all
/// zero-padded.
pub open spec fn stamp_spec(y: int, mo: int, d: int, h: int, mi: int, s: int) -> Seq<char> {
    pad4(y) + pad2(mo) + pad2(d) + seq!['-'] + pad2(h) + pad2(mi) + pad2(s)
}

/// The full history path for one session: the base directory, a slash, the
/// timestamp, a dash, the sanitized provider name, a dot and the format's
/// extension.
pub open spec fn timestamped_spec(
    base_dir: Seq<char>,
    provider: Seq<char>,
    format: HistoryFormat,
    y: int,
    mo: int,
    d: int,
    h: int,
    mi: int,
    s: int,
) -> Seq<char> {
    base_dir + seq!['/'] + stamp_spec(y, mo, d, h, mi, s) + seq!['-'] + sanitized_spec(provider)
        + seq!['.'] + extension_spec(format)
}

/// Build the history path for a session at the given UTC date and time.
pub fn timestamped_history_path(
    base_dir: &str,
    provider: &str,
    format: HistoryFormat,
    y: u32,
    mo: u32,
    d: u32,
    h: u32,
    mi: u32,
    s: u32,
) -> (r: String)
    ensures
        r@ == timestamped_spec(
            base_dir@,
            provider@,
            format,
            y as int,
            mo as int,
            d as int,
            h as int,
            mi as int,
            s as int,
        ),
{
    let mut out = str_chars(base_dir);
    out.push('/');
    push_pad4(&mut out, y);
    push_pad2(&mut out, mo);
    push_pad2(&mut out, d);
    out.push('-');
    push_pad2(&mut out, h);
    push_pad2(&mut out, mi);
    push_pad2(&mut out, s);
    out.push('-');
    let chunk = sanitized_provider(provider);
    push_all(&mut out, str_chars(chunk.as_str()).as_slice());
    out.push('.');
    push_all(&mut out, str_chars(format.extension()).as_slice());
    proof {
        assert(out@ =~= timestamped_spec(
            base_dir@,
            provider@,
            format,
            y as int,
            mo as int,
            d as int,
            h as int,
            mi as int,
            s as int,
        ));
    }
    chars_string(out.as_slice())
}

/// Where a session's transcript is saved, resolved from the caller's flags.
#[derive(Clone, Debug)]
pub struct HistoryConfig {
    pub explicit_path: Option<String>,
    pub history_dir: Option<String>,
    pub auto_save: bool,
    pub format: HistoryFormat,
    pub auto_save_request_failed: bool,
}

impl HistoryConfig {
    /// The path a session is saved to, if any: an explicit path wins; with
    /// auto-save on and a directory available, a timestamped file there.
    pub fn resolve_path(
        &self,
        provider_name: &str,
        y: u32,
        mo: u32,
        d: u32,
        h: u32,
        mi: u32,
        s: u32,
    ) -> (r: Option<String>)
        ensures
            match self.explicit_path {
                Some(p) => r matches Some(rp) && rp@ == p@,
                None => {
                    if self.auto_save && self.history_dir is Some {
                        r matches Some(rp) && rp@ == timestamped_spec(
                            self.history_dir->Some_0@,
                            provider_name@,
                            self.format,
                            y as int,
                            mo as int,
                            d as int,
                            h as int,
                            mi as int,
                            s as int,
                        )
                    } else {
                        r is None
                    }
                },
            },
    {
        match &self.explicit_path {
            Some(p) => Some(p.clone()),
            None => {
                if self.auto_save {
                    match &self.history_dir {
                        Some(dir) => Some(
                            timestamped_history_path(
                                dir.as_str(),
                                provider_name,
                                self.format,
                                y,
                                mo,
                                d,
                                h,
                                mi,
                                s,
                            ),
                        ),
                        None => None,
                    }
                } else {
                    None
                }
            },
        }
    }
}

/// Resolve the caller's history flags: an explicitly given directory wins
/// over the platform default, and auto-save is dropped (and flagged) when no
/// directory is available at all.
pub fn build_history_config(
    save_path: Option<String>,
    history_dir: Option<String>,
    auto_save: bool,
    format: HistoryFormat,
    fallback_dir: Option<String>,
) -> (r: HistoryConfig)
    ensures
        r.format == format,
        r.explicit_path == save_path,
        r.history_dir == (if history_dir is Some {
            history_dir
        } else {
            fallback_dir
        }),
        r.auto_save == (auto_save && r.history_dir is Some),
        r.auto_save_request_failed == (auto_save && r.history_dir is None),
{
    let dir = match history_dir {
        Some(d) => Some(d),
        None => fallback_dir,
    };
    let available = match &dir {
        Some(_) => true,
        None => false,
    };
    HistoryConfig {
        explicit_path: save_path,
        history_dir: dir,
        auto_save: auto_save && available,
        format,
        auto_save_request_failed: auto_save && !available,
    }
}

} // verus!
