//! Pure classification of one object's metadata: extension, byte size and
//! key-derived name pattern, every check evaluated so that each failure
//! reason is reported.

use vstd::prelude::*;

verus! {

broadcast use vstd::seq_lib::group_filter_ensures, Seq::lemma_filter_push;

/// The metadata of the object under inspection, as the inbound
/// object-creation notification carries it. Any field may be absent.
#[derive(Debug)]
pub struct S3Entity {
    pub bucket_name: Option<String>,
    pub key: Option<String>,
    pub size: Option<i64>,
    pub version_id: Option<String>,
}

/// The mathematical value of an [`S3Entity`].
#[verifier::ext_equal]
pub ghost struct S3EntityView {
    pub bucket_name: Option<Seq<char>>,
    pub key: Option<Seq<char>>,
    pub size: Option<i64>,
    pub version_id: Option<Seq<char>>,
}

impl View for S3Entity {
    type V = S3EntityView;

    open spec fn view(&self) -> S3EntityView {
        S3EntityView {
            bucket_name: match self.bucket_name {
                Some(ref b) => Some(b@),
                None => None,
            },
            key: match self.key {
                Some(ref k) => Some(k@),
                None => None,
            },
            size: self.size,
            version_id: match self.version_id {
                Some(ref v) => Some(v@),
                None => None,
            },
        }
    }
}

/// Whether a character counts as numeric for the name-pattern check.
pub uninterp spec fn numeric_char(c: char) -> bool;

/// Relies on char::is_numeric: true exactly of the characters in a
/// Unicode numeric general category, a property of the character alone;
/// within the ASCII range those are precisely the decimal digits.
#[verifier::external_body]
fn char_is_numeric(c: char) -> (r: bool)
    ensures
        r == numeric_char(c),
        (c as u32) < 128 ==> (r <==> (48 <= c as u32 && c as u32 <= 57)),
{
    c.is_numeric()
}

/// The suffix of `s` after its last `/`; the whole of `s` when it has
/// none.
pub open spec fn spec_after_last_slash(s: Seq<char>) -> Seq<char>
    decreases s.len(),
{
    if s.len() == 0 {
        Seq::empty()
    } else if s.last() == '/' {
        Seq::empty()
    } else {
        spec_after_last_slash(s.drop_last()).push(s.last())
    }
}

/// The filename component of an object key, as a path names it: the last
/// `/`-separated segment, skipping empty segments and `.` segments; a
/// final `..` segment, or no segment at all, leaves the key without a
/// filename.
pub open spec fn spec_file_name(key: Seq<char>) -> Option<Seq<char>>
    decreases key.len(),
{
    if key.len() == 0 {
        None
    } else if key.last() == '/' {
        spec_file_name(key.drop_last())
    } else {
        let f = spec_after_last_slash(key);
        if f == seq!['.'] {
            spec_file_name(key.drop_last())
        } else if f == seq!['.', '.'] {
            None
        } else {
            Some(f)
        }
    }
}

/// The extension of a filename: what follows the last `.`, provided that
/// dot is not the leading character (a leading-dot name has no extension).
pub open spec fn spec_ext_of(f: Seq<char>) -> Option<Seq<char>> {
    match f.index_of_last('.') {
        Some(d) => if d > 0 {
            Some(f.subrange(d + 1, f.len() as int))
        } else {
            None
        },
        None => None,
    }
}

/// The filename with its extension stripped; the whole filename when it
/// has no extension.
pub open spec fn spec_stem_of(f: Seq<char>) -> Seq<char> {
    match f.index_of_last('.') {
        Some(d) => if d > 0 {
            f.subrange(0, d)
        } else {
            f
        },
        None => f,
    }
}

/// The extension of an object key; a key without a filename has none.
pub open spec fn spec_extension(key: Seq<char>) -> Option<Seq<char>> {
    match spec_file_name(key) {
        Some(f) => spec_ext_of(f),
        None => None,
    }
}

/// The extension-stripped filename of an object key; empty when the key
/// has no filename.
pub open spec fn spec_stem(key: Seq<char>) -> Seq<char> {
    match spec_file_name(key) {
        Some(f) => spec_stem_of(f),
        None => Seq::empty(),
    }
}

/// Predicate holding of the segment delimiter.
pub open spec fn is_dash() -> spec_fn(char) -> bool {
    |c: char| c == '-'
}

/// How many segment delimiters a name holds; the name splits into one
/// more segment than this.
pub open spec fn dash_count(s: Seq<char>) -> int {
    s.filter(is_dash()).len() as int
}

/// Whether every character outside the delimiters is numeric, that is,
/// whether every segment consists entirely of numeric characters.
pub open spec fn segments_numeric(s: Seq<char>) -> bool {
    forall|i: int| 0 <= i < s.len() && s[i] != '-' ==> numeric_char(#[trigger] s[i])
}

/// The failure reason of the extension check, or `None` when it passes:
/// the key must be present, carry an extension, and that extension must
/// be `txt`.
pub open spec fn spec_check_file_extension(e: S3EntityView) -> Option<Seq<char>> {
    match e.key {
        None => Some("Missing object key"@),
        Some(k) => match spec_extension(k) {
            None => Some("Missing file extension"@),
            Some(ext) => if ext == "txt"@ {
                None
            } else {
                Some("Invalid file extension, should be .txt"@)
            },
        },
    }
}

/// The failure reason of the size check, or `None` when it passes: the
/// size must be present and strictly greater than zero.
pub open spec fn spec_check_file_size(e: S3EntityView) -> Option<Seq<char>> {
    match e.size {
        None => Some("Missing object size"@),
        Some(s) => if s <= 0 {
            Some("Invalid size, it should be greater than 0"@)
        } else {
            None
        },
    }
}

/// The failure reason of the name-pattern check, or `None` when it
/// passes: the extension-stripped filename must split into exactly four
/// segments on `-`, each consisting entirely of numeric characters.
pub open spec fn spec_check_file_name(e: S3EntityView) -> Option<Seq<char>> {
    match e.key {
        None => Some("Missing object key"@),
        Some(k) => if dash_count(spec_stem(k)) != 3 {
            Some("Invalid file name format, it should be formated as a Prod ID"@)
        } else if !segments_numeric(spec_stem(k)) {
            Some("Invalid file name format, it should be a numeric code"@)
        } else {
            None
        },
    }
}

/// Whether all three checks pass.
pub open spec fn spec_file_valid(e: S3EntityView) -> bool {
    &&& spec_check_file_extension(e) is None
    &&& spec_check_file_size(e) is None
    &&& spec_check_file_name(e) is None
}

/// A failure reason as a zero- or one-element list.
pub open spec fn opt_reason(o: Option<Seq<char>>) -> Seq<Seq<char>> {
    match o {
        Some(s) => seq![s],
        None => Seq::empty(),
    }
}

/// Every failed check's reason, in check-declaration order.
pub open spec fn spec_reasons(e: S3EntityView) -> Seq<Seq<char>> {
    opt_reason(spec_check_file_extension(e)) + opt_reason(spec_check_file_size(e)) + opt_reason(
        spec_check_file_name(e),
    )
}

/// The parts joined by the separator.
pub open spec fn spec_join(parts: Seq<Seq<char>>, sep: Seq<char>) -> Seq<char>
    decreases parts.len(),
{
    if parts.len() == 0 {
        Seq::empty()
    } else if parts.len() == 1 {
        parts[0]
    } else {
        spec_join(parts.drop_last(), sep) + sep + parts.last()
    }
}

/// The outcome text: a fixed success string when every check passes, else
/// every failed check's reason joined by a comma.
pub open spec fn spec_validation_message(e: S3EntityView) -> Seq<char> {
    if spec_file_valid(e) {
        "File is valid"@
    } else {
        spec_join(spec_reasons(e), ", "@)
    }
}

/// The characters of a string slice as a vector.
fn chars_of(s: &str) -> (v: Vec<char>)
    ensures
        v@ == s@,
{
    let n = s.unicode_len();
    let mut v: Vec<char> = Vec::new();
    let mut i: usize = 0;
    while i < n
        invariant
            i <= n,
            n == s@.len(),
            v@ == s@.subrange(0, i as int),
        decreases n - i,
    {
        let c = s.get_char(i);
        v.push(c);
        proof {
            assert(v@ =~= s@.subrange(0, i + 1));
        }
        i += 1;
    }
    proof {
        assert(s@.subrange(0, n as int) =~= s@);
    }
    v
}

/// The position of the last occurrence of `c` in `v`, if any.
fn index_of_last_char(v: &Vec<char>, c: char) -> (r: Option<usize>)
    ensures
        (match r {
            Some(i) => i < v@.len() && v@.index_of_last(c) == Some(i as int),
            None => v@.index_of_last(c) is None,
        }),
{
    let mut i: usize = v.len();
    while i > 0
        invariant
            i <= v@.len(),
            forall|j: int| i <= j < v@.len() ==> v@[j] != c,
        decreases i,
    {
        i = i - 1;
        if v[i] == c {
            proof {
                v@.index_of_last_ensures(c);
                assert(v@.contains(c)) by {
                    assert(v@[i as int] == c);
                }
            }
            return Some(i);
        }
    }
    proof {
        v@.index_of_last_ensures(c);
        if v@.contains(c) {
            let w = choose|w: int| 0 <= w < v@.len() && v@[w] == c;
            assert(v@[w] != c);
        }
    }
    None
}

/// The characters of `v` from `from` (inclusive) to `to` (exclusive).
fn subvec(v: &Vec<char>, from: usize, to: usize) -> (out: Vec<char>)
    requires
        from <= to <= v@.len(),
    ensures
        out@ == v@.subrange(from as int, to as int),
{
    let mut out: Vec<char> = Vec::new();
    let mut i: usize = from;
    while i < to
        invariant
            from <= i <= to <= v@.len(),
            out@ == v@.subrange(from as int, i as int),
        decreases to - i,
    {
        out.push(v[i]);
        proof {
            assert(out@ =~= v@.subrange(from as int, i + 1));
        }
        i += 1;
    }
    out
}

/// When no `/` stands at `start` or after, and a `/` (or the start of the
/// sequence) stands just before, the suffix after the last `/` is exactly
/// the run from `start` to the end.
proof fn lemma_after_last_slash_suffix(s: Seq<char>, start: int)
    requires
        0 <= start <= s.len(),
        forall|j: int| start <= j < s.len() ==> s[j] != '/',
        start == 0 || s[start - 1] == '/',
    ensures
        spec_after_last_slash(s) == s.subrange(start, s.len() as int),
    decreases s.len() - start,
{
    if start == s.len() {
        assert(s.subrange(start, s.len() as int) =~= Seq::<char>::empty());
    } else {
        assert(s.last() != '/');
        lemma_after_last_slash_suffix(s.drop_last(), start);
        assert(s.drop_last().subrange(start, s.len() - 1) =~= s.subrange(start, s.len() - 1));
        assert(s.subrange(start, s.len() - 1).push(s.last()) =~= s.subrange(
            start,
            s.len() as int,
        ));
    }
}

/// The filename component of the key, as a path names it: trailing
/// separators, empty segments and `.` segments are skipped; a final `..`
/// segment, or nothing left, means the key has no filename.
fn file_name_chars(v: &Vec<char>) -> (r: Option<Vec<char>>)
    ensures
        (match r {
            Some(f) => spec_file_name(v@) == Some(f@),
            None => spec_file_name(v@) is None,
        }),
{
    let mut end: usize = v.len();
    proof {
        assert(v@.subrange(0, end as int) =~= v@);
    }
    while end > 0
        invariant
            end <= v@.len(),
            spec_file_name(v@.subrange(0, end as int)) == spec_file_name(v@),
        decreases end,
    {
        let ghost p = v@.subrange(0, end as int);
        if v[end - 1] == '/' {
            proof {
                assert(p.drop_last() =~= v@.subrange(0, end - 1));
            }
            end = end - 1;
        } else {
            let mut start: usize = end;
            while start > 0 && v[start - 1] != '/'
                invariant
                    start <= end <= v@.len(),
                    forall|j: int| start <= j < end ==> v@[j] != '/',
                decreases start,
            {
                start = start - 1;
            }
            proof {
                assert(forall|j: int| start <= j < p.len() ==> p[j] != '/');
                lemma_after_last_slash_suffix(p, start as int);
                assert(spec_after_last_slash(p) =~= v@.subrange(start as int, end as int));
            }
            if end - start == 1 && v[start] == '.' {
                proof {
                    assert(spec_after_last_slash(p) =~= seq!['.']);
                    assert(p.drop_last() =~= v@.subrange(0, end - 1));
                }
                end = end - 1;
            } else if end - start == 2 && v[start] == '.' && v[start + 1] == '.' {
                proof {
                    assert(spec_after_last_slash(p) =~= seq!['.', '.']);
                }
                return None;
            } else {
                let f = subvec(v, start, end);
                proof {
                    let fs = spec_after_last_slash(p);
                    assert(fs.len() == end - start);
                    if end - start == 1 {
                        assert(fs[0] == v@[start as int]);
                        assert(seq!['.'][0] == '.');
                        assert(fs != seq!['.']);
                        assert(fs != seq!['.', '.']);
                    } else if end - start == 2 {
                        assert(fs[0] == v@[start as int]);
                        assert(fs[1] == v@[start as int + 1]);
                        assert(seq!['.', '.'][0] == '.' && seq!['.', '.'][1] == '.');
                        assert(fs != seq!['.']);
                        assert(fs != seq!['.', '.']);
                    } else {
                        assert(fs != seq!['.'] && fs != seq!['.', '.']);
                    }
                }
                return Some(f);
            }
        }
    }
    proof {
        assert(v@.subrange(0, 0) =~= Seq::<char>::empty());
    }
    None
}

/// Whether the characters spell `txt`.
fn is_txt(ext: &Vec<char>) -> (r: bool)
    ensures
        r == (ext@ == "txt"@),
{
    proof {
        reveal_strlit("txt");
    }
    if ext.len() == 3 {
        let r = ext[0] == 't' && ext[1] == 'x' && ext[2] == 't';
        proof {
            if r {
                assert(ext@ =~= "txt"@);
            }
        }
        r
    } else {
        false
    }
}

/// The extension check: the object key must be present, have a filename
/// extension, and the extension must be `txt`.
pub fn check_file_extension(s3_entity: &S3Entity) -> (r: Option<String>)
    ensures
        (match r {
            Some(m) => spec_check_file_extension(s3_entity@) == Some(m@),
            None => spec_check_file_extension(s3_entity@) is None,
        }),
{
    let key = match &s3_entity.key {
        Some(k) => k,
        None => {
            return Some(String::from_str("Missing object key"));
        },
    };
    let kv = chars_of(key.as_str());
    let fname = match file_name_chars(&kv) {
        Some(f) => f,
        None => {
            return Some(String::from_str("Missing file extension"));
        },
    };
    let flen = fname.len();
    match index_of_last_char(&fname, '.') {
        Some(d) if d > 0 => {
            let ext = subvec(&fname, d + 1, flen);
            if is_txt(&ext) {
                None
            } else {
                Some(String::from_str("Invalid file extension, should be .txt"))
            }
        },
        _ => Some(String::from_str("Missing file extension")),
    }
}

/// The size check: the object size must be present and strictly greater
/// than zero.
pub fn check_file_size(s3_entity: &S3Entity) -> (r: Option<String>)
    ensures
        (match r {
            Some(m) => spec_check_file_size(s3_entity@) == Some(m@),
            None => spec_check_file_size(s3_entity@) is None,
        }),
{
    let size = match s3_entity.size {
        Some(s) => s,
        None => {
            return Some(String::from_str("Missing object size"));
        },
    };
    if size <= 0 {
        return Some(String::from_str("Invalid size, it should be greater than 0"));
    }
    None
}

/// How many delimiters the name holds.
fn count_dashes(v: &Vec<char>) -> (n: usize)
    ensures
        n == dash_count(v@),
{
    let mut n: usize = 0;
    let mut i: usize = 0;
    while i < v.len()
        invariant
            i <= v@.len(),
            n == dash_count(v@.subrange(0, i as int)),
            n <= i,
        decreases v@.len() - i,
    {
        proof {
            assert(v@.subrange(0, i + 1) =~= v@.subrange(0, i as int).push(v@[i as int]));
            v@.subrange(0, i as int).lemma_filter_len(is_dash());
        }
        if v[i] == '-' {
            n = n + 1;
        }
        i += 1;
    }
    proof {
        assert(v@.subrange(0, v@.len() as int) =~= v@);
    }
    n
}

/// Whether every non-delimiter character of the name is numeric.
fn segments_all_numeric(v: &Vec<char>) -> (r: bool)
    ensures
        r == segments_numeric(v@),
{
    let mut i: usize = 0;
    while i < v.len()
        invariant
            i <= v@.len(),
            forall|j: int| 0 <= j < i && v@[j] != '-' ==> numeric_char(#[trigger] v@[j]),
        decreases v@.len() - i,
    {
        let c = v[i];
        if c != '-' && !char_is_numeric(c) {
            assert(!segments_numeric(v@)) by {
                assert(v@[i as int] != '-' && !numeric_char(v@[i as int]));
            }
            return false;
        }
        i += 1;
    }
    true
}

/// The name-pattern check: the extension-stripped filename must split
/// into exactly four segments on `-`, every segment numeric.
pub fn check_file_name(s3_entity: &S3Entity) -> (r: Option<String>)
    ensures
        (match r {
            Some(m) => spec_check_file_name(s3_entity@) == Some(m@),
            None => spec_check_file_name(s3_entity@) is None,
        }),
{
    let key = match &s3_entity.key {
        Some(k) => k,
        None => {
            return Some(String::from_str("Missing object key"));
        },
    };
    let kv = chars_of(key.as_str());
    let stem = match file_name_chars(&kv) {
        Some(fname) => {
            match index_of_last_char(&fname, '.') {
                Some(d) if d > 0 => subvec(&fname, 0, d),
                _ => fname,
            }
        },
        None => Vec::new(),
    };
    proof {
        if spec_file_name(kv@) is None {
            assert(stem@ =~= Seq::<char>::empty());
        }
        assert(stem@ == spec_stem(kv@));
    }
    if count_dashes(&stem) != 3 {
        return Some(String::from_str("Invalid file name format, it should be formated as a Prod ID"));
    }
    if !segments_all_numeric(&stem) {
        return Some(String::from_str("Invalid file name format, it should be a numeric code"));
    }
    None
}

/// The views of a list of reason strings.
pub open spec fn views_of(msgs: Seq<String>) -> Seq<Seq<char>> {
    msgs.map_values(|m: String| m@)
}

/// The reasons joined by a comma and a space.
fn join_reasons(msgs: &Vec<String>) -> (out: String)
    ensures
        out@ == spec_join(views_of(msgs@), ", "@),
{
    let mut out = String::new();
    let mut i: usize = 0;
    while i < msgs.len()
        invariant
            i <= msgs@.len(),
            out@ == spec_join(views_of(msgs@).take(i as int), ", "@),
        decreases msgs@.len() - i,
    {
        proof {
            assert(views_of(msgs@).take(i + 1) =~= views_of(msgs@).take(i as int).push(
                msgs@[i as int]@,
            ));
            assert(views_of(msgs@).take(i + 1).drop_last() =~= views_of(msgs@).take(i as int));
        }
        if i > 0 {
            out.append(", ");
        }
        out.append(msgs[i].as_str());
        i += 1;
    }
    proof {
        assert(views_of(msgs@).take(msgs@.len() as int) =~= views_of(msgs@));
    }
    out
}

/// Classify the object's metadata. The boolean says whether every check
/// passed; the text is a fixed success string when it did, else the
/// comma-joined reasons of every failed check, in check order.
pub fn is_valid_file(s3_entity: &S3Entity) -> (r: (bool, String))
    ensures
        r.0 == spec_file_valid(s3_entity@),
        r.1@ == spec_validation_message(s3_entity@),
{
    let mut error_messages: Vec<String> = Vec::new();

    if let Some(error) = check_file_extension(s3_entity) {
        error_messages.push(error);
    }
    if let Some(error) = check_file_size(s3_entity) {
        error_messages.push(error);
    }
    if let Some(error) = check_file_name(s3_entity) {
        error_messages.push(error);
    }
    proof {
        assert(views_of(error_messages@) =~= spec_reasons(s3_entity@));
    }

    if error_messages.is_empty() {
        return (true, String::from_str("File is valid"));
    }
    let joined = join_reasons(&error_messages);
    (false, joined)
}

} // verus!
