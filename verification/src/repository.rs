//! Geode parameter (`.gp`) manifests of a PC/GEOS source tree, and the
//! records of the repository model built from manifests and symbol files.
use vstd::prelude::*;
use crate::pcgeos_obj::ObjSegmentType;
use crate::model::SwatResult;
use crate::text::{
    is_ws, trim, trim_str, words, split_ws_once, split_once_ws, split_whitespace, starts_with,
    parse_uint, parse_uint_str, owned, push_char, char_len, substr, IntParseError, str_eq,
};

verus! {

/// A `resource` line of a manifest: the resource name and its flags.
#[derive(Clone, Debug, PartialEq, Eq)]
pub struct GpManifestResource {
    pub name: String,
    pub flags: Vec<String>,
}

pub struct ResourceModel {
    pub name: Seq<char>,
    pub flags: Seq<Seq<char>>,
}

pub open spec fn strings_view(v: Seq<String>) -> Seq<Seq<char>> {
    v.map_values(|s: String| s@)
}

impl View for GpManifestResource {
    type V = ResourceModel;

    open spec fn view(&self) -> ResourceModel {
        ResourceModel { name: self.name@, flags: strings_view(self.flags@) }
    }
}

/// A parsed geode parameter file.
#[derive(Clone, Debug, PartialEq, Eq)]
pub struct GpManifest {
    pub path: String,
    pub name: Option<String>,
    pub long_name: Option<String>,
    pub token_chars: Option<String>,
    pub token_id: Option<u16>,
    pub geode_type: Vec<String>,
    pub class_name: Option<String>,
    pub app_object: Option<String>,
    pub stack_size: Option<u32>,
    pub libraries: Vec<String>,
    pub resources: Vec<GpManifestResource>,
    pub exports: Vec<String>,
    pub user_notes: Option<String>,
}

/// A manifest as a mathematical value.
pub struct ManifestModel {
    pub path: Seq<char>,
    pub name: Option<Seq<char>>,
    pub long_name: Option<Seq<char>>,
    pub token_chars: Option<Seq<char>>,
    pub token_id: Option<u16>,
    pub geode_type: Seq<Seq<char>>,
    pub class_name: Option<Seq<char>>,
    pub app_object: Option<Seq<char>>,
    pub stack_size: Option<u32>,
    pub libraries: Seq<Seq<char>>,
    pub resources: Seq<ResourceModel>,
    pub exports: Seq<Seq<char>>,
    pub user_notes: Option<Seq<char>>,
}

pub open spec fn opt_str(o: Option<String>) -> Option<Seq<char>> {
    match o {
        Some(s) => Some(s@),
        None => None,
    }
}

pub open spec fn resources_view(v: Seq<GpManifestResource>) -> Seq<ResourceModel> {
    v.map_values(|r: GpManifestResource| r@)
}

impl View for GpManifest {
    type V = ManifestModel;

    open spec fn view(&self) -> ManifestModel {
        ManifestModel {
            path: self.path@,
            name: opt_str(self.name),
            long_name: opt_str(self.long_name),
            token_chars: opt_str(self.token_chars),
            token_id: self.token_id,
            geode_type: strings_view(self.geode_type@),
            class_name: opt_str(self.class_name),
            app_object: opt_str(self.app_object),
            stack_size: self.stack_size,
            libraries: strings_view(self.libraries@),
            resources: resources_view(self.resources@),
            exports: strings_view(self.exports@),
            user_notes: opt_str(self.user_notes),
        }
    }
}

// ----- lines, comments and fields -----

/// The first position of `c` in `s`.
pub open spec fn find_char(s: Seq<char>, c: char) -> Option<int>
    decreases s.len(),
{
    if s.len() == 0 {
        None
    } else if s[0] == c {
        Some(0)
    } else {
        match find_char(s.drop_first(), c) {
            Some(i) => Some(i + 1),
            None => None,
        }
    }
}

proof fn lemma_find_char(s: Seq<char>, c: char)
    ensures
        match find_char(s, c) {
            Some(i) => 0 <= i < s.len() && s[i] == c && forall|k: int| 0 <= k < i ==> s[k] != c,
            None => forall|k: int| 0 <= k < s.len() ==> s[k] != c,
        },
    decreases s.len(),
{
    if s.len() > 0 && s[0] != c {
        lemma_find_char(s.drop_first(), c);
        match find_char(s.drop_first(), c) {
            Some(i) => {
                assert forall|k: int| 0 <= k < i + 1 implies s[k] != c by {
                    if k > 0 {
                        assert(s[k] == s.drop_first()[k - 1]);
                    }
                }
            },
            None => {
                assert forall|k: int| 0 <= k < s.len() implies s[k] != c by {
                    if k > 0 {
                        assert(s[k] == s.drop_first()[k - 1]);
                    }
                }
            },
        }
    }
}

/// `str::lines`: the text split at `\n`, a `\r` before the `\n` dropped,
/// no line after a final `\n`.
pub open spec fn text_lines(s: Seq<char>) -> Seq<Seq<char>>
    decreases s.len(),
{
    if s.len() == 0 {
        seq![]
    } else {
        match find_char(s, '\n') {
            None => seq![s],
            Some(i) => {
                let line = s.subrange(0, i);
                let line = if line.len() > 0 && line.last() == '\r' {
                    line.drop_last()
                } else {
                    line
                };
                if 0 <= i < s.len() {
                    seq![line] + text_lines(s.subrange(i + 1, s.len() as int))
                } else {
                    seq![line]
                }
            },
        }
    }
}

/// Where a comment starts in `s` from `i`: the first `#` outside double
/// quotes, or the end.
pub open spec fn comment_start(s: Seq<char>, i: int, in_quote: bool) -> int
    decreases s.len() - i,
{
    if i >= s.len() || i < 0 {
        s.len() as int
    } else if s[i] == '"' {
        comment_start(s, i + 1, !in_quote)
    } else if s[i] == '#' && !in_quote {
        i
    } else {
        comment_start(s, i + 1, in_quote)
    }
}

/// The line without its comment.
pub open spec fn strip_comment(s: Seq<char>) -> Seq<char> {
    s.subrange(0, comment_start(s, 0, false))
}

/// The command word of a line and the trimmed rest.
pub open spec fn gp_command(line: Seq<char>) -> (Seq<char>, Seq<char>) {
    match split_ws_once(line) {
        Some((a, b)) => (a, trim(b)),
        None => (line, seq![]),
    }
}

/// A value in double quotes loses them; any other value is taken as it is,
/// trimmed.
pub open spec fn quoted_or_raw(v: Seq<char>) -> Seq<char> {
    let t = trim(v);
    if t.len() >= 2 && t[0] == '"' && t.last() == '"' {
        t.subrange(1, t.len() - 1)
    } else {
        t
    }
}

/// `s` without leading and trailing `c`.
pub open spec fn trim_char(s: Seq<char>, c: char) -> Seq<char>
    decreases s.len(),
{
    if s.len() > 0 && s[0] == c {
        trim_char(s.drop_first(), c)
    } else if s.len() > 0 && s.last() == c {
        trim_char(s.drop_last(), c)
    } else {
        s
    }
}

/// The trimmed, non-empty items of a comma-separated list.
pub open spec fn comma_items(s: Seq<char>) -> Seq<Seq<char>>
    decreases s.len(),
{
    match find_char(s, ',') {
        None => if trim(s).len() > 0 {
            seq![trim(s)]
        } else {
            seq![]
        },
        Some(i) => {
            let item = trim(s.subrange(0, i));
            let head: Seq<Seq<char>> = if item.len() > 0 {
                seq![item]
            } else {
                seq![]
            };
            if 0 <= i < s.len() {
                head + comma_items(s.subrange(i + 1, s.len() as int))
            } else {
                head
            }
        },
    }
}

/// `Some` of the number in `s` where it reads as one no larger than `max`.
pub open spec fn number_or_none(s: Seq<char>, max: nat) -> Option<nat> {
    match parse_uint(s, max) {
        Ok(v) => Some(v),
        Err(_) => None,
    }
}

/// The manifest after one more line of the file.
pub open spec fn apply_gp_line(m: ManifestModel, raw: Seq<char>) -> ManifestModel {
    let line = trim(strip_comment(raw));
    if line.len() == 0 {
        m
    } else {
        let (command, rest) = gp_command(line);
        if command == "name"@ {
            ManifestModel { name: Some(rest), ..m }
        } else if command == "longname"@ {
            ManifestModel { long_name: Some(quoted_or_raw(rest)), ..m }
        } else if command == "tokenchars"@ {
            ManifestModel { token_chars: Some(quoted_or_raw(rest)), ..m }
        } else if command == "tokenid"@ {
            ManifestModel {
                token_id: match number_or_none(trim(rest), 65535) {
                    Some(v) => Some(v as u16),
                    None => None,
                },
                ..m
            }
        } else if command == "type"@ {
            ManifestModel { geode_type: comma_items(rest), ..m }
        } else if command == "class"@ {
            ManifestModel { class_name: Some(rest), ..m }
        } else if command == "appobj"@ {
            ManifestModel { app_object: Some(rest), ..m }
        } else if command == "stack"@ {
            ManifestModel {
                stack_size: match number_or_none(rest, 4294967295) {
                    Some(v) => Some(v as u32),
                    None => None,
                },
                ..m
            }
        } else if command == "library"@ {
            ManifestModel { libraries: m.libraries.push(rest), ..m }
        } else if command == "resource"@ {
            let ws = words(rest);
            if ws.len() > 0 {
                ManifestModel {
                    resources: m.resources.push(
                        ResourceModel {
                            name: ws[0],
                            flags: ws.drop_first().map_values(|w: Seq<char>| trim_char(w, ',')),
                        },
                    ),
                    ..m
                }
            } else {
                m
            }
        } else if command == "export"@ {
            ManifestModel { exports: m.exports.push(rest), ..m }
        } else if command == "usernotes"@ {
            ManifestModel { user_notes: Some(quoted_or_raw(rest)), ..m }
        } else {
            m
        }
    }
}

/// The manifest after the lines `ls`, in order.
pub open spec fn apply_gp_lines(m: ManifestModel, ls: Seq<Seq<char>>) -> ManifestModel
    decreases ls.len(),
{
    if ls.len() == 0 {
        m
    } else {
        apply_gp_lines(apply_gp_line(m, ls[0]), ls.drop_first())
    }
}

/// A manifest of `path` with no field set.
pub open spec fn empty_manifest(path: Seq<char>) -> ManifestModel {
    ManifestModel {
        path,
        name: None,
        long_name: None,
        token_chars: None,
        token_id: None,
        geode_type: seq![],
        class_name: None,
        app_object: None,
        stack_size: None,
        libraries: seq![],
        resources: seq![],
        exports: seq![],
        user_notes: None,
    }
}

/// The manifest that `text` describes.
pub open spec fn manifest_of(path: Seq<char>, text: Seq<char>) -> ManifestModel {
    apply_gp_lines(empty_manifest(path), text_lines(text))
}

// ----- executable pieces -----

/// The first position of `c` in `s`.
fn find_char_in(s: &str, c: char) -> (r: Option<usize>)
    ensures
        match find_char(s@, c) {
            Some(i) => r matches Some(j) && j == i,
            None => r is None,
        },
{
    proof {
        lemma_find_char(s@, c);
    }
    let n = s.unicode_len();
    let mut i: usize = 0;
    while i < n
        invariant
            i <= n,
            n == s@.len(),
            forall|k: int| 0 <= k < i ==> s@[k] != c,
            match find_char(s@, c) {
                Some(j) => 0 <= j < s@.len() && s@[j] == c && forall|k: int| 0 <= k < j ==> s@[k] != c,
                None => forall|k: int| 0 <= k < s@.len() ==> s@[k] != c,
            },
        decreases n - i,
    {
        if s.get_char(i) == c {
            return Some(i);
        }
        i += 1;
    }
    None
}

/// `str::lines`.
pub fn split_lines<'a>(text: &'a str) -> (r: Vec<&'a str>)
    ensures
        r@.len() == text_lines(text@).len(),
        forall|k: int| 0 <= k < r@.len() ==> (#[trigger] r@[k])@ == text_lines(text@)[k],
{
    let mut out: Vec<&'a str> = Vec::new();
    let mut rest: &'a str = text;
    let ghost done: Seq<Seq<char>> = seq![];
    loop
        invariant
            done.len() == out@.len(),
            forall|k: int| 0 <= k < out@.len() ==> (#[trigger] out@[k])@ == done[k],
            text_lines(text@) == done + text_lines(rest@),
        decreases rest@.len(),
    {
        let n = char_len(rest);
        if n == 0 {
            assert(done + text_lines(rest@) =~= done);
            return out;
        }
        proof {
            lemma_find_char(rest@, '\n');
        }
        match find_char_in(rest, '\n') {
            None => {
                proof {
                    assert(text_lines(rest@) == seq![rest@]);
                    done = done.push(rest@);
                    assert(done =~= text_lines(text@));
                }
                out.push(rest);
                return out;
            },
            Some(i) => {
                let mut line = substr(rest, 0, i);
                let m = char_len(line);
                if m > 0 && line.get_char(m - 1) == '\r' {
                    line = substr(line, 0, m - 1);
                }
                let next = substr(rest, i + 1, n);
                proof {
                    assert(text_lines(rest@) == seq![line@] + text_lines(next@));
                    assert(done + text_lines(rest@) =~= done.push(line@) + text_lines(next@));
                    done = done.push(line@);
                }
                out.push(line);
                rest = next;
            },
        }
    }
}

/// The line without its comment: the text before the first `#` outside
/// double quotes.
fn strip_gp_comment(line: &str) -> (r: &str)
    ensures
        r@ == strip_comment(line@),
{
    let n = line.unicode_len();
    let mut in_quote = false;
    let mut i: usize = 0;
    while i < n
        invariant
            i <= n,
            n == line@.len(),
            comment_start(line@, 0, false) == comment_start(line@, i as int, in_quote),
        decreases n - i,
    {
        let ch = line.get_char(i);
        if ch == '"' {
            in_quote = !in_quote;
        } else if ch == '#' && !in_quote {
            return line.substring_char(0, i);
        }
        i += 1;
    }
    line.substring_char(0, n)
}

/// The command word of a line and the trimmed rest.
fn split_gp_command<'a>(line: &'a str) -> (r: (&'a str, &'a str))
    ensures
        (r.0@, r.1@) == gp_command(line@),
{
    match split_once_ws(line) {
        Some((command, rest)) => (command, trim_str(rest)),
        None => {
            proof {
                reveal_strlit("");
            }
            (line, "")
        },
    }
}

/// A value without its double quotes, or the trimmed value.
fn parse_gp_quoted_or_raw(value: &str) -> (r: String)
    ensures
        r@ == quoted_or_raw(value@),
{
    let trimmed = trim_str(value);
    let n = char_len(trimmed);
    if n >= 2 && trimmed.get_char(0) == '"' && trimmed.get_char(n - 1) == '"' {
        owned(substr(trimmed, 1, n - 1))
    } else {
        owned(trimmed)
    }
}

/// `str::trim_matches` with one character.
fn trim_matches_char(s: &str, c: char) -> (r: &str)
    ensures
        r@ == trim_char(s@, c),
{
    let n = s.unicode_len();
    let mut i: usize = 0;
    let mut j: usize = n;
    assert(s@.subrange(0, n as int) =~= s@);
    while i < j && s.get_char(i) == c
        invariant
            i <= j <= n,
            n == s@.len(),
            j == n,
            trim_char(s@, c) == trim_char(s@.subrange(i as int, j as int), c),
        decreases j - i,
    {
        assert(s@.subrange(i as int, j as int).drop_first() =~= s@.subrange(i + 1, j as int));
        i += 1;
    }
    while i < j && s.get_char(j - 1) == c
        invariant
            i <= j <= n,
            n == s@.len(),
            i < j ==> s@[i as int] != c,
            trim_char(s@, c) == trim_char(s@.subrange(i as int, j as int), c),
        decreases j - i,
    {
        assert(s@.subrange(i as int, j as int).drop_last() =~= s@.subrange(i as int, j - 1));
        j -= 1;
    }
    s.substring_char(i, j)
}

/// The trimmed, non-empty items of a comma-separated list.
fn split_comma_items(s: &str) -> (r: Vec<String>)
    ensures
        strings_view(r@) == comma_items(s@),
{
    let mut out: Vec<String> = Vec::new();
    let mut rest: &str = s;
    let ghost done: Seq<Seq<char>> = seq![];
    loop
        invariant
            strings_view(out@) == done,
            comma_items(s@) == done + comma_items(rest@),
        decreases rest@.len(),
    {
        proof {
            lemma_find_char(rest@, ',');
        }
        match find_char_in(rest, ',') {
            None => {
                let item = trim_str(rest);
                if char_len(item) > 0 {
                    let owned_item = owned(item);
                    proof {
                        assert(strings_view(out@.push(owned_item)) =~= done.push(item@));
                        assert(done + comma_items(rest@) =~= done.push(item@));
                    }
                    out.push(owned_item);
                } else {
                    assert(done + comma_items(rest@) =~= done);
                }
                return out;
            },
            Some(i) => {
                let n = char_len(rest);
                let item = trim_str(substr(rest, 0, i));
                let next = substr(rest, i + 1, n);
                if char_len(item) > 0 {
                    let owned_item = owned(item);
                    proof {
                        assert(strings_view(out@.push(owned_item)) =~= done.push(item@));
                        assert(done + comma_items(rest@) =~= done.push(item@) + comma_items(next@));
                        done = done.push(item@);
                    }
                    out.push(owned_item);
                } else {
                    assert(done + comma_items(rest@) =~= done + comma_items(next@));
                }
                rest = next;
            },
        }
    }
}

proof fn lemma_strings_push(v: Seq<String>, x: String)
    ensures
        strings_view(v.push(x)) == strings_view(v).push(x@),
{
    assert(strings_view(v.push(x)) =~= strings_view(v).push(x@));
}

/// The flags of a `resource` line: each word without its commas.
fn resource_flags(ws: &Vec<&str>) -> (r: Vec<String>)
    requires
        ws@.len() >= 1,
    ensures
        strings_view(r@) == ws@.map_values(|w: &str| w@).drop_first().map_values(
            |w: Seq<char>| trim_char(w, ','),
        ),
{
    let mut out: Vec<String> = Vec::new();
    let n = ws.len();
    let mut k: usize = 1;
    let ghost target = ws@.map_values(|w: &str| w@).drop_first().map_values(
        |w: Seq<char>| trim_char(w, ','),
    );
    while k < n
        invariant
            1 <= k <= n,
            n == ws@.len(),
            target == ws@.map_values(|w: &str| w@).drop_first().map_values(
                |w: Seq<char>| trim_char(w, ','),
            ),
            strings_view(out@) == target.subrange(0, k - 1),
        decreases n - k,
    {
        let flag = owned(trim_matches_char(ws[k], ','));
        proof {
            lemma_strings_push(out@, flag);
            assert(target.subrange(0, k as int) =~= target.subrange(0, k - 1).push(flag@));
        }
        out.push(flag);
        k += 1;
    }
    assert(target.subrange(0, n - 1) =~= target);
    out
}

impl GpManifest {
    /// Applies one line of the file.
    fn apply_line(&mut self, raw_line: &str)
        ensures
            final(self)@ == apply_gp_line(old(self)@, raw_line@),
    {
        let line = trim_str(strip_gp_comment(raw_line));
        if char_len(line) == 0 {
            return;
        }
        let (command, rest) = split_gp_command(line);
        if str_eq(command, "name") {
            self.name = Some(owned(rest));
        } else if str_eq(command, "longname") {
            self.long_name = Some(parse_gp_quoted_or_raw(rest));
        } else if str_eq(command, "tokenchars") {
            self.token_chars = Some(parse_gp_quoted_or_raw(rest));
        } else if str_eq(command, "tokenid") {
            self.token_id = match parse_uint_str(trim_str(rest), 65535) {
                Ok(v) => Some(v as u16),
                Err(_) => None,
            };
        } else if str_eq(command, "type") {
            self.geode_type = split_comma_items(rest);
        } else if str_eq(command, "class") {
            self.class_name = Some(owned(rest));
        } else if str_eq(command, "appobj") {
            self.app_object = Some(owned(rest));
        } else if str_eq(command, "stack") {
            self.stack_size = match parse_uint_str(rest, 4294967295) {
                Ok(v) => Some(v as u32),
                Err(_) => None,
            };
        } else if str_eq(command, "library") {
            let item = owned(rest);
            proof {
                lemma_strings_push(self.libraries@, item);
            }
            self.libraries.push(item);
        } else if str_eq(command, "resource") {
            let tokens = split_whitespace(rest);
            proof {
                assert(tokens@.map_values(|w: &str| w@) =~= words(rest@));
            }
            if tokens.len() > 0 {
                let resource = GpManifestResource {
                    name: owned(tokens[0]),
                    flags: resource_flags(&tokens),
                };
                proof {
                    assert(resources_view(self.resources@.push(resource)) =~= resources_view(
                        self.resources@,
                    ).push(resource@));
                }
                self.resources.push(resource);
            }
        } else if str_eq(command, "export") {
            let item = owned(rest);
            proof {
                lemma_strings_push(self.exports@, item);
            }
            self.exports.push(item);
        } else if str_eq(command, "usernotes") {
            self.user_notes = Some(parse_gp_quoted_or_raw(rest));
        }
    }

    /// Reads a geode parameter file: one `command value` per line, `#`
    /// comments outside double quotes, unknown commands ignored.
    pub fn parse(path: &str, text: &str) -> (r: SwatResult<Self>)
        ensures
            r matches Ok(m) && m@ == manifest_of(path@, text@),
    {
        let mut manifest = GpManifest {
            path: owned(path),
            name: None,
            long_name: None,
            token_chars: None,
            token_id: None,
            geode_type: Vec::new(),
            class_name: None,
            app_object: None,
            stack_size: None,
            libraries: Vec::new(),
            resources: Vec::new(),
            exports: Vec::new(),
            user_notes: None,
        };
        assert(manifest@ =~= empty_manifest(path@)) by {
            assert(strings_view(manifest.geode_type@) =~= Seq::<Seq<char>>::empty());
            assert(strings_view(manifest.libraries@) =~= Seq::<Seq<char>>::empty());
            assert(strings_view(manifest.exports@) =~= Seq::<Seq<char>>::empty());
            assert(resources_view(manifest.resources@) =~= Seq::<ResourceModel>::empty());
        };
        let lines = split_lines(text);
        let ghost ls = text_lines(text@);
        let n = lines.len();
        let mut k: usize = 0;
        assert(ls.subrange(0, n as int) =~= ls);
        while k < n
            invariant
                k <= n,
                n == ls.len(),
                n == lines@.len(),
                ls == text_lines(text@),
                forall|j: int| 0 <= j < n ==> (#[trigger] lines@[j])@ == ls[j],
                apply_gp_lines(empty_manifest(path@), ls) == apply_gp_lines(
                    manifest@,
                    ls.subrange(k as int, n as int),
                ),
            decreases n - k,
        {
            assert(ls.subrange(k as int, n as int).drop_first() =~= ls.subrange(k + 1, n as int));
            manifest.apply_line(lines[k]);
            k += 1;
        }
        assert(ls.subrange(n as int, n as int) =~= Seq::<Seq<char>>::empty());
        Ok(manifest)
    }
}

/// The key of a patient: the name up to its first `.`, trimmed, in ASCII
/// lower case.
pub open spec fn patient_key_of(name: Seq<char>) -> Seq<char> {
    let stem = match find_char(name, '.') {
        Some(i) => name.subrange(0, i),
        None => name,
    };
    ascii_lowercase(trim(stem))
}

/// `str::to_ascii_lowercase`.
pub open spec fn ascii_lowercase(s: Seq<char>) -> Seq<char> {
    s.map_values(|c: char| ascii_lower(c))
}

/// `char::to_ascii_lowercase`.
pub open spec fn ascii_lower(c: char) -> char {
    if 'A' <= c && c <= 'Z' {
        ((c as u32) + 32) as char
    } else {
        c
    }
}

pub(crate) fn to_ascii_lower(c: char) -> (r: char)
    ensures
        r == ascii_lower(c),
{
    if 'A' <= c && c <= 'Z' {
        let code: u8 = (c as u8) + 32;
        code as char
    } else {
        c
    }
}

/// The key of the patient that a geode named `name` belongs to.
pub fn normalize_patient_key(name: &str) -> (r: String)
    ensures
        r@ == patient_key_of(name@),
{
    proof {
        lemma_find_char(name@, '.');
    }
    let found = find_char_in(name, '.');
    let stem = match found {
        Some(i) => substr(name, 0, i),
        None => name,
    };

    let trimmed = trim_str(stem);
    let n = char_len(trimmed);
    let mut out = String::new();
    let mut k: usize = 0;
    assert(patient_key_of(name@) == ascii_lowercase(trimmed@));
    while k < n
        invariant
            k <= n,
            n == trimmed@.len(),
            patient_key_of(name@) == ascii_lowercase(trimmed@),
            out@ == ascii_lowercase(trimmed@.subrange(0, k as int)),
        decreases n - k,
    {
        let l = to_ascii_lower(trimmed.get_char(k));
        push_char(&mut out, l);
        assert(ascii_lowercase(trimmed@.subrange(0, k + 1)) =~= ascii_lowercase(
            trimmed@.subrange(0, k as int),
        ).push(l));
        k += 1;
    }
    assert(trimmed@.subrange(0, n as int) =~= trimmed@);
    out
}

impl GpManifest {
    /// The key of the patient that the manifest's geode belongs to.
    pub fn patient_key(&self) -> (r: Option<String>)
        ensures
            match self.name {
                Some(n) => r matches Some(k) && k@ == patient_key_of(n@),
                None => r is None,
            },
    {
        match &self.name {
            Some(n) => Some(normalize_patient_key(n.as_str())),
            None => None,
        }
    }
}

/// The label of a segment type in the repository model.
pub fn segment_type_label(segment_type: ObjSegmentType) -> (r: &'static str)
    ensures
        r@ == match segment_type {
            ObjSegmentType::Private => "private"@,
            ObjSegmentType::Common => "common"@,
            ObjSegmentType::Stack => "stack"@,
            ObjSegmentType::Library => "library"@,
            ObjSegmentType::Resource => "resource"@,
            ObjSegmentType::Lmem => "lmem"@,
            ObjSegmentType::Public => "public"@,
            ObjSegmentType::Absolute => "absolute"@,
            ObjSegmentType::Global => "global"@,
            ObjSegmentType::Unknown(_) => "unknown"@,
        },
{
    match segment_type {
        ObjSegmentType::Private => "private",
        ObjSegmentType::Common => "common",
        ObjSegmentType::Stack => "stack",
        ObjSegmentType::Library => "library",
        ObjSegmentType::Resource => "resource",
        ObjSegmentType::Lmem => "lmem",
        ObjSegmentType::Public => "public",
        ObjSegmentType::Absolute => "absolute",
        ObjSegmentType::Global => "global",
        ObjSegmentType::Unknown(_) => "unknown",
    }
}

/// A program of the repository: its geodes and everything they hold.
#[derive(Clone, Debug, PartialEq, Eq)]
pub struct RepositoryPatient {
    pub key: String,
    pub geodes: Vec<String>,
    pub resources: Vec<String>,
    pub handles: Vec<String>,
    pub source_files: Vec<String>,
    pub artifact_paths: Vec<String>,
}

/// A geode of the repository.
#[derive(Clone, Debug, PartialEq, Eq)]
pub struct RepositoryGeode {
    pub key: String,
    pub patient: String,
    pub permanent_name: Option<String>,
    pub long_name: Option<String>,
    pub geode_type: Vec<String>,
    pub libraries: Vec<String>,
    pub resources: Vec<String>,
    pub handles: Vec<String>,
    pub source_files: Vec<String>,
    pub artifact_paths: Vec<String>,
}

/// A segment handle of a geode.
#[derive(Clone, Debug, PartialEq, Eq)]
pub struct RepositoryHandle {
    pub key: String,
    pub patient: String,
    pub geode: String,
    pub resource: Option<String>,
    pub kind: String,
    pub data_handle: Option<u16>,
    pub source_files: Vec<String>,
    pub artifact_path: String,
}

/// A resource of a geode.
#[derive(Clone, Debug, PartialEq, Eq)]
pub struct RepositoryResource {
    pub key: String,
    pub patient: String,
    pub geode: String,
    pub handle: Option<String>,
    pub kind: String,
    pub source_files: Vec<String>,
    pub artifact_paths: Vec<String>,
}

/// A source file and what it contributes to.
#[derive(Clone, Debug, PartialEq, Eq)]
pub struct RepositorySourceFile {
    pub key: String,
    pub patients: Vec<String>,
    pub geodes: Vec<String>,
    pub resources: Vec<String>,
    pub handles: Vec<String>,
    pub artifact_paths: Vec<String>,
}

/// The repository model: patients, geodes, handles, resources and source
/// files, each in key order.
#[derive(Clone, Debug, PartialEq, Eq)]
pub struct PcGeosRepositoryModel {
    pub patients: Vec<RepositoryPatient>,
    pub geodes: Vec<RepositoryGeode>,
    pub handles: Vec<RepositoryHandle>,
    pub resources: Vec<RepositoryResource>,
    pub source_files: Vec<RepositorySourceFile>,
}


/// The extensions of the source files that belong to a manifest's
/// directory, in lower case.
pub open spec fn gp_source_extensions() -> Seq<Seq<char>> {
    seq!["asm"@, "c"@, "def"@, "goc"@, "goh"@, "h"@, "ui"@]
}

/// Whether a file with extension `ext` is a source file of a manifest's
/// directory: one of `asm`, `c`, `def`, `goc`, `goh`, `h`, `ui`, in any
/// ASCII case.
pub fn is_gp_source_extension(ext: &str) -> (r: bool)
    ensures
        r == exists|i: int| 0 <= i < gp_source_extensions().len()
            && ascii_lowercase(ext@) == #[trigger] gp_source_extensions()[i],
{
    let known: [&str; 7] = ["asm", "c", "def", "goc", "goh", "h", "ui"];
    let mut i: usize = 0;
    while i < 7
        invariant
            i <= 7,
            forall|j: int| 0 <= j < 7 ==> (#[trigger] known@[j])@ == gp_source_extensions()[j],
            forall|j: int| 0 <= j < i ==> ascii_lowercase(ext@) != #[trigger] gp_source_extensions()[j],
        decreases 7 - i,
    {
        if crate::registry::eq_ignore_ascii_case(ext, known[i]) {
            proof {
                assert(ascii_lowercase(known[i as int]@) == known[i as int]@) by {
                    reveal_strlit("asm");
                    reveal_strlit("c");
                    reveal_strlit("def");
                    reveal_strlit("goc");
                    reveal_strlit("goh");
                    reveal_strlit("h");
                    reveal_strlit("ui");
                    assert(ascii_lowercase(known[i as int]@) =~= known[i as int]@);
                }
            }
            return true;
        }
        proof {
            assert(ascii_lowercase(known[i as int]@) == known[i as int]@) by {
                reveal_strlit("asm");
                reveal_strlit("c");
                reveal_strlit("def");
                reveal_strlit("goc");
                reveal_strlit("goh");
                reveal_strlit("h");
                reveal_strlit("ui");
                assert(ascii_lowercase(known[i as int]@) =~= known[i as int]@);
            }
        }
        i = i + 1;
    }
    false
}

/// Each line only adds to the exports: the exports before a line are the
/// first exports after it, and a line adds at most one; an `export` line
/// adds its value at the end.
pub proof fn law_gp_line_appends_exports(m: ManifestModel, raw: Seq<char>)
    ensures
        ({
            let after_line = apply_gp_line(m, raw);
            let line = trim(strip_comment(raw));
            &&& m.exports.len() <= after_line.exports.len() <= m.exports.len() + 1
            &&& after_line.exports.subrange(0, m.exports.len() as int) == m.exports
            &&& (line.len() > 0 && gp_command(line).0 == "export"@) ==> after_line.exports == m.exports.push(
                gp_command(line).1,
            )
        }),
{
    let after_line = apply_gp_line(m, raw);
    let line = trim(strip_comment(raw));
    if line.len() > 0 && gp_command(line).0 == "export"@ {
        reveal_strlit("name");
        reveal_strlit("longname");
        reveal_strlit("tokenchars");
        reveal_strlit("tokenid");
        reveal_strlit("type");
        reveal_strlit("class");
        reveal_strlit("appobj");
        reveal_strlit("stack");
        reveal_strlit("library");
        reveal_strlit("resource");
        reveal_strlit("export");
        let c = gp_command(line).0;
        assert(c.len() == 6 && c[0] == 'e');
        assert(c != "name"@);
        assert(c != "longname"@);
        assert(c != "tokenchars"@);
        assert(c != "tokenid"@);
        assert(c != "type"@);
        assert(c != "class"@);
        assert(c != "appobj"@);
        assert(c != "stack"@);
        assert(c != "library"@);
        assert(c != "resource"@);
        assert(after_line.exports == m.exports.push(gp_command(line).1));
        assert(m.exports.push(gp_command(line).1).subrange(0, m.exports.len() as int) =~= m.exports);
    } else {
        assert(after_line.exports == m.exports);
        assert(m.exports.subrange(0, m.exports.len() as int) =~= m.exports);
    }
}

/// Over any run of lines, the exports only grow: the exports before them are
/// the first exports after them, and there is at most one more per line.
pub proof fn law_gp_lines_keep_earlier_exports(m: ManifestModel, ls: Seq<Seq<char>>)
    ensures
        ({
            let after_lines = apply_gp_lines(m, ls);
            &&& m.exports.len() <= after_lines.exports.len() <= m.exports.len() + ls.len()
            &&& after_lines.exports.subrange(0, m.exports.len() as int) == m.exports
        }),
    decreases ls.len(),
{
    if ls.len() > 0 {
        let m1 = apply_gp_line(m, ls[0]);
        law_gp_line_appends_exports(m, ls[0]);
        law_gp_lines_keep_earlier_exports(m1, ls.drop_first());
        let fin = apply_gp_lines(m, ls);
        assert(fin == apply_gp_lines(m1, ls.drop_first()));
        assert(fin.exports.subrange(0, m.exports.len() as int) =~= fin.exports.subrange(
            0,
            m1.exports.len() as int,
        ).subrange(0, m.exports.len() as int));
    }
}

} // verus!
