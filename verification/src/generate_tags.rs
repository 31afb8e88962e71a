//! The tag-set mutation algebra: pure operations that derive a new tag
//! collection from an optional existing one.
//!
//! A collection keeps at most one tag per name; operations that rebuild a
//! collection scan the whole input, so duplicate names in a (tolerated,
//! invariant-violating) input are all targeted at once.

use vstd::prelude::*;

verus! {

broadcast use vstd::seq_lib::group_filter_ensures, Seq::lemma_filter_push;

/// A name/value status marker attached to a stored object.
#[derive(Debug)]
pub struct Tag {
    pub key: String,
    pub value: String,
}

/// The mathematical value of a [`Tag`]: its name and value as character
/// sequences.
#[verifier::ext_equal]
pub ghost struct TagModel {
    pub key: Seq<char>,
    pub value: Seq<char>,
}

impl View for Tag {
    type V = TagModel;

    open spec fn view(&self) -> TagModel {
        TagModel { key: self.key@, value: self.value@ }
    }
}

pub open spec fn tag_model(key: Seq<char>, value: Seq<char>) -> TagModel {
    TagModel { key, value }
}

/// The character sequence a boolean is rendered as in a tag value.
pub open spec fn bool_str(b: bool) -> Seq<char> {
    if b {
        "true"@
    } else {
        "false"@
    }
}

/// The models of a sequence of tags.
pub open spec fn tags_view(ts: Seq<Tag>) -> Seq<TagModel> {
    ts.map_values(|t: Tag| t@)
}

/// Predicate holding of tags whose name differs from `name`.
pub open spec fn key_differs(name: Seq<char>) -> spec_fn(TagModel) -> bool {
    |t: TagModel| t.key != name
}

/// Predicate holding of tags whose name equals `name`.
pub open spec fn key_matches(name: Seq<char>) -> spec_fn(TagModel) -> bool {
    |t: TagModel| t.key == name
}

/// Whether some tag in `s` carries the name `name`.
pub open spec fn has_tag_named(s: Seq<TagModel>, name: Seq<char>) -> bool {
    exists|i: int| 0 <= i < s.len() && s[i].key == name
}

/// The collection after an insert-or-replace of `{name, value}`: every tag
/// sharing `name` is dropped, then the new tag is appended. An absent
/// input yields the singleton.
pub open spec fn upsert_tags(ts: Option<Seq<TagModel>>, name: Seq<char>, b: bool) -> Seq<
    TagModel,
> {
    match ts {
        Some(s) => s.filter(key_differs(name)).push(tag_model(name, bool_str(b))),
        None => seq![tag_model(name, bool_str(b))],
    }
}

/// The collection after a conditional replacement: if any tag carries
/// `old_name`, all of them are dropped and `{new_name, value}` is appended;
/// otherwise the collection is unchanged. An absent input yields the
/// singleton whatever `old_name` is.
pub open spec fn replace_tags(
    ts: Option<Seq<TagModel>>,
    old_name: Seq<char>,
    new_name: Seq<char>,
    b: bool,
) -> Seq<TagModel> {
    match ts {
        Some(s) => if has_tag_named(s, old_name) {
            s.filter(key_differs(old_name)).push(tag_model(new_name, bool_str(b)))
        } else {
            s
        },
        None => seq![tag_model(new_name, bool_str(b))],
    }
}

/// The collection after every tag named `name` is removed, `None` standing
/// for the empty collection as [`Tagging`] represents it.
pub open spec fn remove_tagging(ts: Option<Seq<TagModel>>, name: Seq<char>) -> Option<
    Seq<TagModel>,
> {
    match ts {
        Some(s) => {
            let kept = s.filter(key_differs(name));
            if kept.len() == 0 {
                None
            } else {
                Some(kept)
            }
        },
        None => None,
    }
}

/// A tag collection as written back to the object store. An absent
/// `tag_set` is the empty collection.
#[derive(Debug)]
pub struct Tagging {
    pub tag_set: Option<Vec<Tag>>,
}

impl View for Tagging {
    type V = Option<Seq<TagModel>>;

    open spec fn view(&self) -> Option<Seq<TagModel>> {
        match self.tag_set {
            Some(v) => Some(tags_view(v@)),
            None => None,
        }
    }
}

/// A tag collection as read back from the object store; it mirrors the
/// read-result shape of the remote store, which exposes the same optional
/// tag list as [`Tagging`].
#[derive(Debug)]
pub struct GetObjectTaggingOutput {
    pub tag_set: Option<Vec<Tag>>,
}

impl View for GetObjectTaggingOutput {
    type V = Option<Seq<TagModel>>;

    open spec fn view(&self) -> Option<Seq<TagModel>> {
        match self.tag_set {
            Some(v) => Some(tags_view(v@)),
            None => None,
        }
    }
}

/// Capability shared by every response shape that exposes an optional tag
/// collection; the mutation algebra is defined against it alone.
pub trait TagSet {
    spec fn spec_tag_set(&self) -> Option<Seq<TagModel>>;

    fn tag_set(&self) -> (r: Option<&[Tag]>)
        ensures
            (match r {
                Some(v) => self.spec_tag_set() == Some(tags_view(v@)),
                None => self.spec_tag_set() is None,
            }),
    ;
}

impl TagSet for Tagging {
    open spec fn spec_tag_set(&self) -> Option<Seq<TagModel>> {
        self@
    }

    fn tag_set(&self) -> (r: Option<&[Tag]>) {
        match &self.tag_set {
            Some(v) => Some(v.as_slice()),
            None => None,
        }
    }
}

impl TagSet for GetObjectTaggingOutput {
    open spec fn spec_tag_set(&self) -> Option<Seq<TagModel>> {
        self@
    }

    fn tag_set(&self) -> (r: Option<&[Tag]>) {
        match &self.tag_set {
            Some(v) => Some(v.as_slice()),
            None => None,
        }
    }
}

/// The optional tag models carried by an optional tag slice.
pub open spec fn slice_tags_view(o: Option<&[Tag]>) -> Option<Seq<TagModel>> {
    match o {
        Some(v) => Some(tags_view(v@)),
        None => None,
    }
}

/// Build patterns over any tag-bearing shape: stamp a single tag, append
/// one by name, replace one name with another, or remove a name.
pub trait GenerateTags: TagSet {
    fn tag_as_true(tag_name: &str) -> (r: Tagging)
        ensures
            r@ == Some(seq![tag_model(tag_name@, bool_str(true))]),
    ;

    fn tag_as_false(tag_name: &str) -> (r: Tagging)
        ensures
            r@ == Some(seq![tag_model(tag_name@, bool_str(false))]),
    ;

    fn add_true_tag(&self, tag_name: &str) -> (r: Tagging)
        ensures
            r@ == Some(upsert_tags(self.spec_tag_set(), tag_name@, true)),
    ;

    fn add_false_tag(&self, tag_name: &str) -> (r: Tagging)
        ensures
            r@ == Some(upsert_tags(self.spec_tag_set(), tag_name@, false)),
    ;

    fn replace_with_true_tag(&self, old_tag_name: &str, new_tag_name: &str) -> (r: Tagging)
        ensures
            r@ == Some(replace_tags(self.spec_tag_set(), old_tag_name@, new_tag_name@, true)),
    ;

    fn replace_with_false_tag(&self, old_tag_name: &str, new_tag_name: &str) -> (r: Tagging)
        ensures
            r@ == Some(replace_tags(self.spec_tag_set(), old_tag_name@, new_tag_name@, false)),
    ;

    fn remove_tag(&self, tag_name: &str) -> (r: Tagging)
        ensures
            r@ == remove_tagging(self.spec_tag_set(), tag_name@),
    ;
}

/// Whether two string slices hold the same characters.
fn str_eq(a: &str, b: &str) -> (r: bool)
    ensures
        r == (a@ == b@),
{
    a.to_owned() == b.to_owned()
}

/// The tag value a boolean is rendered as.
fn bool_string(b: bool) -> (r: String)
    ensures
        r@ == bool_str(b),
{
    if b {
        String::from_str("true")
    } else {
        String::from_str("false")
    }
}

/// A fresh tag `{tag_name, value-of-b}`.
fn make_tag(tag_name: &str, b: bool) -> (t: Tag)
    ensures
        t@ == tag_model(tag_name@, bool_str(b)),
{
    Tag { key: tag_name.to_owned(), value: bool_string(b) }
}

/// The tags of `tags` whose name differs from `tag_name`, in order.
fn retained_tags(tags: &[Tag], tag_name: &str) -> (out: Vec<Tag>)
    ensures
        tags_view(out@) == tags_view(tags@).filter(key_differs(tag_name@)),
{
    let mut out: Vec<Tag> = Vec::new();
    let mut i: usize = 0;
    while i < tags.len()
        invariant
            i <= tags.len(),
            tags_view(out@) == tags_view(tags@.subrange(0, i as int)).filter(
                key_differs(tag_name@),
            ),
        decreases tags.len() - i,
    {
        let t = &tags[i];
        proof {
            assert(tags@.subrange(0, i + 1) =~= tags@.subrange(0, i as int).push(tags@[i as int]));
            assert(tags_view(tags@.subrange(0, i as int).push(tags@[i as int])) =~= tags_view(
                tags@.subrange(0, i as int),
            ).push(tags@[i as int]@));
        }
        if !str_eq(t.key.as_str(), tag_name) {
            let kept = Tag { key: t.key.clone(), value: t.value.clone() };
            assert(kept@ == tags@[i as int]@);
            let ghost before = out@;
            out.push(kept);
            proof {
                assert(tags_view(out@) =~= tags_view(before).push(tags@[i as int]@));
            }
        }
        i += 1;
    }
    proof {
        assert(tags@.subrange(0, tags.len() as int) =~= tags@);
    }
    out
}

/// Whether some tag of `tags` carries the name `tag_name`.
fn has_named(tags: &[Tag], tag_name: &str) -> (r: bool)
    ensures
        r == has_tag_named(tags_view(tags@), tag_name@),
{
    let mut i: usize = 0;
    while i < tags.len()
        invariant
            i <= tags.len(),
            forall|j: int| 0 <= j < i ==> tags_view(tags@)[j].key != tag_name@,
        decreases tags.len() - i,
    {
        if str_eq(tags[i].key.as_str(), tag_name) {
            assert(tags_view(tags@)[i as int].key == tag_name@);
            return true;
        }
        i += 1;
    }
    false
}

/// The collection holding the retained tags of `existing` (none named
/// `tag_name`) followed by the fresh tag `{tag_name, value-of-b}`.
fn upsert_into(existing: Option<&[Tag]>, tag_name: &str, b: bool) -> (r: Tagging)
    ensures
        r@ == Some(upsert_tags(slice_tags_view(existing), tag_name@, b)),
{
    let new_tag = make_tag(tag_name, b);
    let tag_set: Vec<Tag> = match existing {
        Some(tags) => {
            let mut previous_tags = retained_tags(tags, tag_name);
            previous_tags.push(new_tag);
            previous_tags
        },
        None => {
            let mut only = Vec::new();
            only.push(new_tag);
            proof {
                assert(tags_view(only@) =~= seq![tag_model(tag_name@, bool_str(b))]);
            }
            only
        },
    };
    proof {
        if existing is Some {
            assert(tags_view(tag_set@) =~= upsert_tags(slice_tags_view(existing), tag_name@, b));
        }
    }
    Tagging { tag_set: Some(tag_set) }
}

impl<T: TagSet> GenerateTags for T {
    fn tag_as_true(tag_name: &str) -> (r: Tagging) {
        let tag = make_tag(tag_name, true);
        let mut tag_set = Vec::new();
        tag_set.push(tag);
        proof {
            assert(tags_view(tag_set@) =~= seq![tag_model(tag_name@, bool_str(true))]);
        }
        Tagging { tag_set: Some(tag_set) }
    }

    fn tag_as_false(tag_name: &str) -> (r: Tagging) {
        let tag = make_tag(tag_name, false);
        let mut tag_set = Vec::new();
        tag_set.push(tag);
        proof {
            assert(tags_view(tag_set@) =~= seq![tag_model(tag_name@, bool_str(false))]);
        }
        Tagging { tag_set: Some(tag_set) }
    }

    fn add_true_tag(&self, tag_name: &str) -> (r: Tagging) {
        upsert_into(self.tag_set(), tag_name, true)
    }

    fn add_false_tag(&self, tag_name: &str) -> (r: Tagging) {
        upsert_into(self.tag_set(), tag_name, false)
    }

    fn replace_with_true_tag(&self, old_tag_name: &str, new_tag_name: &str) -> (r: Tagging) {
        replace_into(self.tag_set(), old_tag_name, new_tag_name, true)
    }

    fn replace_with_false_tag(&self, old_tag_name: &str, new_tag_name: &str) -> (r: Tagging) {
        replace_into(self.tag_set(), old_tag_name, new_tag_name, false)
    }

    fn remove_tag(&self, tag_name: &str) -> (r: Tagging) {
        match self.tag_set() {
            Some(tags) => {
                let previous_tags = retained_tags(tags, tag_name);
                if previous_tags.is_empty() {
                    Tagging { tag_set: None }
                } else {
                    Tagging { tag_set: Some(previous_tags) }
                }
            },
            None => Tagging { tag_set: None },
        }
    }
}

/// The collection after the conditional replacement of `old_tag_name` by
/// the fresh tag `{new_tag_name, value-of-b}`.
fn replace_into(existing: Option<&[Tag]>, old_tag_name: &str, new_tag_name: &str, b: bool) -> (r:
    Tagging)
    ensures
        r@ == Some(replace_tags(slice_tags_view(existing), old_tag_name@, new_tag_name@, b)),
{
    let new_tag = make_tag(new_tag_name, b);
    let tag_set: Vec<Tag> = match existing {
        Some(tags) => {
            if has_named(tags, old_tag_name) {
                let mut previous_tags = retained_tags(tags, old_tag_name);
                previous_tags.push(new_tag);
                proof {
                    assert(tags_view(previous_tags@) =~= tags_view(tags@).filter(
                        key_differs(old_tag_name@),
                    ).push(tag_model(new_tag_name@, bool_str(b))));
                }
                previous_tags
            } else {
                let previous_tags = copy_tags(tags);
                previous_tags
            }
        },
        None => {
            let mut only = Vec::new();
            only.push(new_tag);
            proof {
                assert(tags_view(only@) =~= seq![tag_model(new_tag_name@, bool_str(b))]);
            }
            only
        },
    };
    Tagging { tag_set: Some(tag_set) }
}

/// A fresh vector holding the same tags.
fn copy_tags(tags: &[Tag]) -> (out: Vec<Tag>)
    ensures
        tags_view(out@) == tags_view(tags@),
{
    let mut out: Vec<Tag> = Vec::new();
    let mut i: usize = 0;
    while i < tags.len()
        invariant
            i <= tags.len(),
            tags_view(out@) == tags_view(tags@.subrange(0, i as int)),
        decreases tags.len() - i,
    {
        let t = &tags[i];
        let copied = Tag { key: t.key.clone(), value: t.value.clone() };
        assert(copied@ == tags@[i as int]@);
        out.push(copied);
        proof {
            assert(tags@.subrange(0, i + 1) =~= tags@.subrange(0, i as int).push(tags@[i as int]));
            assert(tags_view(out@) =~= tags_view(tags@.subrange(0, i as int)).push(
                tags@[i as int]@,
            ));
            assert(tags_view(tags@.subrange(0, i + 1)) =~= tags_view(
                tags@.subrange(0, i as int),
            ).push(tags@[i as int]@));
        }
        i += 1;
    }
    proof {
        assert(tags@.subrange(0, tags.len() as int) =~= tags@);
    }
    out
}

/// Whether `a` and `b` hold tags with the same names and values, in the
/// same order.
fn tags_eq(a: &[Tag], b: &[Tag]) -> (r: bool)
    ensures
        r == (tags_view(a@) == tags_view(b@)),
{
    if a.len() != b.len() {
        assert(tags_view(a@).len() != tags_view(b@).len());
        return false;
    }
    let mut i: usize = 0;
    while i < a.len()
        invariant
            i <= a.len(),
            a.len() == b.len(),
            forall|j: int| 0 <= j < i ==> tags_view(a@)[j] == tags_view(b@)[j],
        decreases a.len() - i,
    {
        if !str_eq(a[i].key.as_str(), b[i].key.as_str()) || !str_eq(
            a[i].value.as_str(),
            b[i].value.as_str(),
        ) {
            assert(tags_view(a@)[i as int] != tags_view(b@)[i as int]);
            return false;
        }
        assert(tags_view(a@)[i as int] =~= tags_view(b@)[i as int]);
        i += 1;
    }
    proof {
        assert(tags_view(a@) =~= tags_view(b@));
    }
    true
}

impl PartialEq for Tagging {
    fn eq(&self, other: &Tagging) -> (r: bool) {
        match (&self.tag_set, &other.tag_set) {
            (Some(a), Some(b)) => tags_eq(a.as_slice(), b.as_slice()),
            (None, None) => true,
            _ => false,
        }
    }
}

impl vstd::std_specs::cmp::PartialEqSpecImpl for Tagging {
    open spec fn obeys_eq_spec() -> bool {
        true
    }

    open spec fn eq_spec(&self, other: &Tagging) -> bool {
        self@ == other@
    }
}

/// The invariant of a tag collection: at most one tag per distinct name.
pub open spec fn unique_names(s: Seq<TagModel>) -> bool {
    forall|i: int, j: int| 0 <= i < j < s.len() ==> s[i].key != s[j].key
}

/// A filtered collection keeps its names unique.
proof fn lemma_filter_preserves_unique_names(s: Seq<TagModel>, pred: spec_fn(TagModel) -> bool)
    requires
        unique_names(s),
    ensures
        unique_names(s.filter(pred)),
    decreases s.len(),
{
    reveal(Seq::filter);
    if s.len() > 0 {
        let t = s.drop_last();
        let x = s.last();
        lemma_filter_preserves_unique_names(t, pred);
        if pred(x) {
            assert forall|i: int| 0 <= i < t.filter(pred).len() implies t.filter(pred)[i].key
                != x.key by {
                assert(t.filter(pred).contains(t.filter(pred)[i]));
                t.lemma_filter_contains_rev(pred, t.filter(pred)[i]);
                let a = choose|a: int| 0 <= a < t.len() && t[a] == t.filter(pred)[i];
                assert(s[a] == t[a] && s[s.len() - 1] == x);
            }
        }
    }
}

/// Every tag of a filtered collection keeps a name that the predicate's
/// own name test admitted; in particular, after filtering out a name, no
/// tag carries it.
proof fn lemma_filtered_keys_differ(s: Seq<TagModel>, name: Seq<char>)
    ensures
        forall|i: int|
            0 <= i < s.filter(key_differs(name)).len() ==> (#[trigger] s.filter(
                key_differs(name),
            )[i]).key != name,
{
    assert forall|i: int| 0 <= i < s.filter(key_differs(name)).len() implies (#[trigger] s.filter(
        key_differs(name),
    )[i]).key != name by {
        assert(key_differs(name)(s.filter(key_differs(name))[i]));
    }
}

/// An upsert into a collection with unique names leaves the names unique.
pub proof fn lemma_upsert_preserves_unique_names(s: Seq<TagModel>, name: Seq<char>, b: bool)
    requires
        unique_names(s),
    ensures
        unique_names(upsert_tags(Some(s), name, b)),
{
    lemma_filter_preserves_unique_names(s, key_differs(name));
    lemma_filtered_keys_differ(s, name);
}

/// A replacement in a collection with unique names leaves the names
/// unique, provided the new name is not already taken by another tag.
pub proof fn lemma_replace_preserves_unique_names(
    s: Seq<TagModel>,
    old_name: Seq<char>,
    new_name: Seq<char>,
    b: bool,
)
    requires
        unique_names(s),
        old_name == new_name || !has_tag_named(s, new_name),
    ensures
        unique_names(replace_tags(Some(s), old_name, new_name, b)),
{
    if has_tag_named(s, old_name) {
        let kept = s.filter(key_differs(old_name));
        lemma_filter_preserves_unique_names(s, key_differs(old_name));
        lemma_filtered_keys_differ(s, old_name);
        assert forall|i: int| 0 <= i < kept.len() implies kept[i].key != new_name by {
            if old_name != new_name {
                assert(kept.contains(kept[i]));
                s.lemma_filter_contains_rev(key_differs(old_name), kept[i]);
                let a = choose|a: int| 0 <= a < s.len() && s[a] == kept[i];
                assert(s[a].key != new_name);
            }
        }
    }
}

/// A removal from a collection with unique names leaves the names unique.
pub proof fn lemma_remove_preserves_unique_names(s: Seq<TagModel>, name: Seq<char>)
    requires
        unique_names(s),
    ensures
        (match remove_tagging(Some(s), name) {
            Some(kept) => unique_names(kept),
            None => true,
        }),
{
    lemma_filter_preserves_unique_names(s, key_differs(name));
}

/// Every tag of a filtered sequence satisfies the predicate, so filtering
/// a second time changes nothing.
#[verifier::rlimit(30)]
proof fn lemma_filter_all_matching(s: Seq<TagModel>, pred: spec_fn(TagModel) -> bool)
    requires
        forall|i: int| 0 <= i < s.len() ==> pred(s[i]),
    ensures
        s.filter(pred) == s,
    decreases s.len(),
{
    reveal(Seq::filter);
    if s.len() == 0 {
        assert(s.filter(pred) =~= s);
    } else {
        let t = s.drop_last();
        assert(forall|i: int| 0 <= i < t.len() ==> pred(#[trigger] t[i]) && t[i] == s[i]);
        lemma_filter_all_matching(t, pred);
        assert(pred(s.last()));
        assert(s.filter(pred) == t.filter(pred).push(s.last()));
        assert(t.push(s.last()) =~= s);
    }
}

/// After an upsert of `{name, value-of-b}` into `s`, exactly one tag
/// carries `name` and it holds the rendered value of `b`, while the tags
/// with other names are exactly those of `s`, in their original order.
pub proof fn lemma_upsert_unique(s: Seq<TagModel>, name: Seq<char>, b: bool)
    ensures
        upsert_tags(Some(s), name, b).filter(key_matches(name)) == seq![
            tag_model(name, bool_str(b)),
        ],
        upsert_tags(Some(s), name, b).filter(key_differs(name)) == s.filter(key_differs(name)),
{
    let kept = s.filter(key_differs(name));
    let new = tag_model(name, bool_str(b));
    let result = upsert_tags(Some(s), name, b);
    assert(result == kept.push(new));
    assert forall|i: int| 0 <= i < kept.len() implies !key_matches(name)(kept[i]) by {
        assert(key_differs(name)(kept[i]));
    }
    kept.lemma_all_neg_filter_empty(key_matches(name));
    assert(result.filter(key_matches(name)) =~= seq![new]);
    assert forall|i: int| 0 <= i < kept.len() implies key_differs(name)(kept[i]) by {}
    lemma_filter_all_matching(kept, key_differs(name));
    assert(result.filter(key_differs(name)) =~= kept);
}

/// Removing a name and removing it again from the result is the same as
/// removing it once: the second removal is a no-op.
pub proof fn lemma_remove_idempotent(ts: Option<Seq<TagModel>>, name: Seq<char>)
    ensures
        remove_tagging(remove_tagging(ts, name), name) == remove_tagging(ts, name),
{
    match ts {
        Some(s) => {
            let kept = s.filter(key_differs(name));
            assert forall|i: int| 0 <= i < kept.len() implies key_differs(name)(kept[i]) by {}
            lemma_filter_all_matching(kept, key_differs(name));
        },
        None => {},
    }
}

/// Replacement leaves a collection unchanged when no tag carries the old
/// name.
pub proof fn lemma_replace_no_match(
    s: Seq<TagModel>,
    old_name: Seq<char>,
    new_name: Seq<char>,
    b: bool,
)
    requires
        !has_tag_named(s, old_name),
    ensures
        replace_tags(Some(s), old_name, new_name, b) == s,
{
}

/// When at least one tag carries the old name and none carries the new
/// name, replacement leaves no tag with the old name and exactly one tag
/// with the new name, holding the rendered value of `b`.
pub proof fn lemma_replace_match(
    s: Seq<TagModel>,
    old_name: Seq<char>,
    new_name: Seq<char>,
    b: bool,
)
    requires
        has_tag_named(s, old_name),
        !has_tag_named(s, new_name),
    ensures
        replace_tags(Some(s), old_name, new_name, b).filter(key_matches(old_name)) == Seq::<
            TagModel,
        >::empty(),
        replace_tags(Some(s), old_name, new_name, b).filter(key_matches(new_name)) == seq![
            tag_model(new_name, bool_str(b)),
        ],
{
    let kept = s.filter(key_differs(old_name));
    let new = tag_model(new_name, bool_str(b));
    let result = replace_tags(Some(s), old_name, new_name, b);
    assert(result == kept.push(new));
    assert(new_name != old_name);
    assert forall|i: int| 0 <= i < kept.len() implies !key_matches(old_name)(kept[i]) by {
        assert(key_differs(old_name)(kept[i]));
    }
    kept.lemma_all_neg_filter_empty(key_matches(old_name));
    assert(result.filter(key_matches(old_name)) =~= Seq::<TagModel>::empty());
    assert forall|i: int| 0 <= i < kept.len() implies !key_matches(new_name)(kept[i]) by {
        assert(kept.contains(kept[i]));
        s.lemma_filter_contains_rev(key_differs(old_name), kept[i]);
        let j = choose|j: int| 0 <= j < s.len() && s[j] == kept[i];
        assert(s[j].key != new_name);
    }
    kept.lemma_all_neg_filter_empty(key_matches(new_name));
    assert(result.filter(key_matches(new_name)) =~= seq![new]);
}

/// Against an absent collection, replacement yields the singleton
/// `{new_name, value-of-b}` whatever the old name is.
pub proof fn lemma_replace_absent(old_name: Seq<char>, new_name: Seq<char>, b: bool)
    ensures
        replace_tags(None, old_name, new_name, b) == seq![tag_model(new_name, bool_str(b))],
{
}

} // verus!
