//! Syntactic normalisation of slash-separated paths.
//!
//! A path is read as a sequence of segments separated by `/`. Normalising it
//! drops empty segments and `.` segments (a leading `.` of a relative path
//! stays), keeps `..` and every other segment, and joins what is left with
//! single separators behind the root, if the path had one.

use vstd::prelude::*;
use crate::text::{chars_of, string_of};

verus! {

/// The pieces of `path` between its separators. A path with `n` separators
/// has `n + 1` segments, some of which may be empty.
pub open spec fn segments(path: Seq<char>) -> Seq<Seq<char>>
    decreases path.len(),
{
    if path.len() == 0 {
        seq![Seq::<char>::empty()]
    } else {
        let before = segments(path.drop_last());
        if path.last() == '/' {
            before.push(Seq::<char>::empty())
        } else {
            before.drop_last().push(before.last().push(path.last()))
        }
    }
}

/// The segment that stands for the current directory.
pub open spec fn dot() -> Seq<char> {
    seq!['.']
}

/// A segment that names something: neither empty nor `.`.
pub open spec fn is_named(segment: Seq<char>) -> bool {
    segment.len() > 0 && segment != dot()
}

/// `is_named` as a predicate value.
pub open spec fn named() -> spec_fn(Seq<char>) -> bool {
    |segment: Seq<char>| is_named(segment)
}

/// A segment without a separator in it.
pub open spec fn is_plain(segment: Seq<char>) -> bool {
    forall|i: int| 0 <= i < segment.len() ==> segment[i] != '/'
}

/// A fragment that a path can hold: one without a NUL character.
pub open spec fn is_storable(fragment: Seq<char>) -> bool {
    !fragment.contains('\0')
}

/// The segments that normalisation keeps: the named ones, and a `.` that
/// stands first.
pub open spec fn kept(segs: Seq<Seq<char>>) -> Seq<Seq<char>> {
    if segs.len() > 0 && segs[0] == dot() {
        seq![dot()] + segs.filter(named())
    } else {
        segs.filter(named())
    }
}

/// The components of `path`: its kept segments.
pub open spec fn components(path: Seq<char>) -> Seq<Seq<char>> {
    kept(segments(path))
}

/// Whether `path` starts at the root.
pub open spec fn is_absolute(path: Seq<char>) -> bool {
    path.len() > 0 && path[0] == '/'
}

/// `parts` with one separator between neighbours.
pub open spec fn joined(parts: Seq<Seq<char>>) -> Seq<char>
    decreases parts.len(),
{
    if parts.len() == 0 {
        Seq::<char>::empty()
    } else if parts.len() == 1 {
        parts[0]
    } else {
        joined(parts.drop_last()) + seq!['/'] + parts.last()
    }
}

/// The root, if any, followed by the joined parts.
pub open spec fn rendered(absolute: bool, parts: Seq<Seq<char>>) -> Seq<char> {
    if absolute {
        seq!['/'] + joined(parts)
    } else {
        joined(parts)
    }
}

/// The normal form of `path`.
pub open spec fn normalized(path: Seq<char>) -> Seq<char> {
    rendered(is_absolute(path), components(path))
}

/// A path that normalisation leaves as it is.
pub open spec fn is_normalized(path: Seq<char>) -> bool {
    normalized(path) == path
}

/// The last segment of `path`: what follows its last separator.
pub open spec fn file_name(path: Seq<char>) -> Seq<char> {
    segments(path).last()
}

/// Whether `text` ends with `suffix`.
pub open spec fn ends_with(text: Seq<char>, suffix: Seq<char>) -> bool {
    suffix.len() <= text.len() && text.subrange(text.len() - suffix.len(), text.len() as int)
        == suffix
}

/// Whether `text` starts with `prefix`.
pub open spec fn starts_with(text: Seq<char>, prefix: Seq<char>) -> bool {
    prefix.len() <= text.len() && text.subrange(0, prefix.len() as int) == prefix
}

/// Every path has at least one segment, none of its segments holds a
/// separator, and the first one is empty exactly when the path is absolute
/// or empty.
pub proof fn lemma_segments_shape(path: Seq<char>)
    ensures
        segments(path).len() >= 1,
        forall|k: int| 0 <= k < segments(path).len() ==> is_plain(#[trigger] segments(path)[k]),
        is_absolute(path) ==> segments(path).len() >= 2 && segments(path)[0].len() == 0,
        segments(path)[0].len() == 0 ==> is_absolute(path) || path.len() == 0,
    decreases path.len(),
{
    if path.len() > 0 {
        let front = path.drop_last();
        lemma_segments_shape(front);
        let before = segments(front);
        if path.last() != '/' {
            let grown = before.last().push(path.last());
            assert(is_plain(before.last()));
            assert(is_plain(grown));
            assert(forall|k: int|
                0 <= k < segments(path).len() ==> is_plain(#[trigger] segments(path)[k]));
        }
        if front.len() > 0 {
            assert(front[0] == path[0]);
        } else {
            assert(before =~= seq![Seq::<char>::empty()]);
        }
    }
}

/// Appending one character either opens a new segment or grows the last one.
pub proof fn lemma_segments_push(path: Seq<char>, ch: char)
    ensures
        segments(path).len() >= 1,
        ch == '/' ==> segments(path.push(ch)) == segments(path).push(Seq::<char>::empty()),
        ch != '/' ==> segments(path.push(ch)) == segments(path).drop_last().push(
            segments(path).last().push(ch),
        ),
{
    lemma_segments_shape(path);
    assert(path.push(ch).drop_last() =~= path);
}

/// Appending a plain run of characters grows the last segment by that run.
pub proof fn lemma_segments_append_plain(path: Seq<char>, run: Seq<char>)
    requires
        is_plain(run),
    ensures
        segments(path + run) == segments(path).drop_last().push(segments(path).last() + run),
    decreases run.len(),
{
    lemma_segments_shape(path);
    if run.len() == 0 {
        assert(path + run =~= path);
        assert(segments(path).last() + run =~= segments(path).last());
        assert(segments(path).drop_last().push(segments(path).last()) =~= segments(path));
    } else {
        let shorter = run.drop_last();
        assert(is_plain(shorter));
        lemma_segments_append_plain(path, shorter);
        assert(path + run =~= (path + shorter).push(run.last()));
        lemma_segments_push(path + shorter, run.last());
        let base = segments(path).drop_last();
        let tail = segments(path).last();
        assert(base.push(tail + shorter).drop_last() =~= base);
        assert((tail + shorter).push(run.last()) =~= tail + run);
    }
}

/// A separator followed by a plain run adds that run as a new last segment.
pub proof fn lemma_segments_append_segment(path: Seq<char>, run: Seq<char>)
    requires
        is_plain(run),
    ensures
        segments(path + seq!['/'] + run) == segments(path).push(run),
{
    lemma_segments_push(path, '/');
    assert(path + seq!['/'] =~= path.push('/'));
    lemma_segments_append_plain(path.push('/'), run);
    let opened = segments(path).push(Seq::<char>::empty());
    assert(opened.drop_last() =~= segments(path));
    assert(Seq::<char>::empty() + run =~= run);
}

/// What `kept` makes of a list that grew by one segment.
pub proof fn lemma_kept_push(segs: Seq<Seq<char>>, segment: Seq<char>)
    ensures
        kept(segs.push(segment)) == if is_named(segment) || (segs.len() == 0 && segment == dot()) {
            kept(segs).push(segment)
        } else {
            kept(segs)
        },
{
    reveal(Seq::filter);
    let grown = segs.push(segment);
    assert(grown.drop_last() =~= segs);
    assert(grown.last() == segment);
    assert(named()(segment) == is_named(segment));
    assert(segs.len() == 0 ==> segs.filter(named()) =~= Seq::<Seq<char>>::empty());
    if segs.len() > 0 {
        assert(grown[0] == segs[0]);
    }
    if is_named(segment) {
        assert(kept(grown) =~= kept(segs).push(segment));
    } else if segs.len() == 0 && segment == dot() {
        assert(kept(grown) =~= kept(segs).push(segment));
    } else {
        assert(kept(grown) =~= kept(segs));
    }
}

/// Joining a list that grew by one part.
pub proof fn lemma_joined_push(parts: Seq<Seq<char>>, part: Seq<char>)
    ensures
        joined(parts.push(part)) == if parts.len() == 0 {
            part
        } else {
            joined(parts) + seq!['/'] + part
        },
{
    assert(parts.push(part).drop_last() =~= parts);
}

/// The kept segments are plain and named, but for a `.` that may stand first
/// in a relative path.
pub proof fn lemma_components_shape(path: Seq<char>)
    ensures
        forall|k: int|
            0 <= k < components(path).len() ==> is_plain(#[trigger] components(path)[k]),
        forall|k: int|
            1 <= k < components(path).len() ==> is_named(#[trigger] components(path)[k]),
        components(path).len() > 0 ==> is_named(components(path)[0]) || (components(path)[0]
            == dot() && !is_absolute(path)),
{
    lemma_segments_shape(path);
    lemma_named_only(segments(path));
    assert(is_plain(dot()));
}

/// Filtering plain segments by `named` leaves plain, named segments.
pub proof fn lemma_named_only(segs: Seq<Seq<char>>)
    requires
        forall|k: int| 0 <= k < segs.len() ==> is_plain(#[trigger] segs[k]),
    ensures
        forall|k: int|
            0 <= k < segs.filter(named()).len() ==> is_plain(#[trigger] segs.filter(named())[k])
                && is_named(segs.filter(named())[k]),
    decreases segs.len(),
{
    reveal(Seq::filter);
    if segs.len() > 0 {
        lemma_named_only(segs.drop_last());
        let last = segs.last();
        let shorter = segs.drop_last().filter(named());
        let picked = segs.filter(named());
        assert(is_plain(last));
        assert(named()(last) == is_named(last));
        assert forall|k: int| 0 <= k < picked.len() implies is_plain(#[trigger] picked[k])
            && is_named(picked[k]) by {
            if k < shorter.len() {
                assert(picked[k] == shorter[k]);
            } else {
                assert(picked[k] == last);
            }
        }
    }
}

/// Splitting joined plain parts gives the parts back.
pub proof fn lemma_segments_of_joined(parts: Seq<Seq<char>>)
    requires
        parts.len() > 0,
        forall|k: int| 0 <= k < parts.len() ==> is_plain(#[trigger] parts[k]),
    ensures
        segments(joined(parts)) == parts,
    decreases parts.len(),
{
    let last = parts.last();
    assert(is_plain(last));
    if parts.len() == 1 {
        let none = Seq::<char>::empty();
        lemma_segments_append_plain(none, last);
        assert(none + last =~= last);
        assert(segments(none) =~= seq![none]);
        assert(segments(none).drop_last().push(none + last) =~= parts);
    } else {
        let front = parts.drop_last();
        lemma_segments_of_joined(front);
        lemma_segments_append_segment(joined(front), last);
        assert(front.push(last) =~= parts);
    }
}

/// Splitting a root followed by joined plain parts gives an empty segment
/// and then the parts.
pub proof fn lemma_segments_of_rooted(parts: Seq<Seq<char>>)
    requires
        parts.len() > 0,
        forall|k: int| 0 <= k < parts.len() ==> is_plain(#[trigger] parts[k]),
    ensures
        segments(seq!['/'] + joined(parts)) == seq![Seq::<char>::empty()] + parts,
    decreases parts.len(),
{
    let none = Seq::<char>::empty();
    let root = seq!['/'];
    lemma_segments_push(none, '/');
    assert(none.push('/') =~= root);
    assert(segments(none) =~= seq![none]);
    assert(segments(root) =~= seq![none, none]);
    let last = parts.last();
    assert(is_plain(last));
    if parts.len() == 1 {
        lemma_segments_append_plain(root, last);
        assert(joined(parts) == last);
        assert(none + last =~= last);
        assert(segments(root).drop_last() =~= seq![none]);
        assert(seq![none].push(last) =~= seq![none] + parts);
    } else {
        let front = parts.drop_last();
        lemma_segments_of_rooted(front);
        lemma_segments_append_segment(root + joined(front), last);
        assert(root + joined(parts) =~= root + joined(front) + root + last);
        assert((seq![none] + front).push(last) =~= seq![none] + parts);
    }
}

/// A list of named segments passes the `named` filter unchanged.
pub proof fn lemma_named_all(segs: Seq<Seq<char>>)
    requires
        forall|k: int| 0 <= k < segs.len() ==> is_named(#[trigger] segs[k]),
    ensures
        segs.filter(named()) == segs,
    decreases segs.len(),
{
    reveal(Seq::filter);
    if segs.len() > 0 {
        lemma_named_all(segs.drop_last());
        assert(is_named(segs.last()));
        assert(named()(segs.last()));
        assert(segs.drop_last().push(segs.last()) =~= segs);
    }
}

/// The `named` filter drops a segment that is empty or `.`.
pub proof fn lemma_named_none(segment: Seq<char>)
    requires
        !is_named(segment),
    ensures
        seq![segment].filter(named()) == Seq::<Seq<char>>::empty(),
{
    reveal_with_fuel(Seq::filter, 2);
    assert(seq![segment].drop_last() =~= Seq::<Seq<char>>::empty());
    assert(!named()(segment));
}

/// Joined parts start with the first part.
pub proof fn lemma_joined_starts(parts: Seq<Seq<char>>)
    requires
        parts.len() > 0,
    ensures
        starts_with(joined(parts), parts[0]),
    decreases parts.len(),
{
    if parts.len() == 1 {
        assert(parts[0].subrange(0, parts[0].len() as int) =~= parts[0]);
    } else {
        let front = parts.drop_last();
        lemma_joined_starts(front);
        assert(front[0] == parts[0]);
        let width = parts[0].len() as int;
        assert(joined(parts).subrange(0, width) =~= joined(front).subrange(0, width));
    }
}

/// A normal form with a component starts at the root exactly when the
/// path does, and its segments are the components of the path, behind one
/// empty segment if it starts at the root. So none of its segments but
/// that one is empty, and none but a leading one is `.`.
pub proof fn lemma_normal_form_segments(path: Seq<char>)
    requires
        components(path).len() > 0,
    ensures
        is_absolute(normalized(path)) == is_absolute(path),
        segments(normalized(path)) == if is_absolute(path) {
            seq![Seq::<char>::empty()] + components(path)
        } else {
            components(path)
        },
{
    let parts = components(path);
    let normal = normalized(path);
    lemma_components_shape(path);
    if is_absolute(path) {
        lemma_segments_of_rooted(parts);
        assert(normal[0] == '/');
    } else {
        lemma_segments_of_joined(parts);
        lemma_joined_starts(parts);
        let head = parts[0];
        assert(is_plain(head));
        assert(head.len() > 0);
        assert(normal.subrange(0, head.len() as int)[0] == head[0]);
        assert(normal[0] != '/');
    }
}

/// Normalising a normal form changes nothing.
pub proof fn lemma_normalized_idempotent(path: Seq<char>)
    ensures
        is_normalized(normalized(path)),
{
    let none = Seq::<char>::empty();
    let root = seq!['/'];
    let parts = components(path);
    let normal = normalized(path);
    lemma_components_shape(path);
    lemma_named_none(none);
    if parts.len() == 0 {
        if is_absolute(path) {
            assert(normal =~= root);
            lemma_segments_push(none, '/');
            assert(none.push('/') =~= root);
            assert(segments(none) =~= seq![none]);
            assert(segments(root) =~= seq![none] + seq![none]);
            Seq::filter_distributes_over_add(seq![none], seq![none], named());
            assert(kept(segments(root)) =~= parts);
        } else {
            assert(normal =~= none);
            assert(segments(none) =~= seq![none]);
            assert(kept(segments(none)) =~= parts);
        }
    } else {
        lemma_normal_form_segments(path);
        let head = parts[0];
        let rest = parts.drop_first();
        assert(seq![head] + rest =~= parts);
        assert forall|k: int| 0 <= k < rest.len() implies is_named(#[trigger] rest[k]) by {
            assert(rest[k] == parts[k + 1]);
        }
        lemma_named_all(rest);
        if is_absolute(path) {
            assert(forall|k: int| 0 <= k < parts.len() ==> is_named(#[trigger] parts[k]));
            lemma_named_all(parts);
            Seq::filter_distributes_over_add(seq![none], parts, named());
            assert((seq![none] + parts)[0] == none);
            assert(kept(seq![none] + parts) =~= parts);
        } else if head == dot() {
            lemma_named_none(head);
            Seq::filter_distributes_over_add(seq![head], rest, named());
            assert(kept(parts) =~= parts);
        } else {
            assert(forall|k: int| 0 <= k < parts.len() ==> is_named(#[trigger] parts[k]));
            lemma_named_all(parts);
        }
    }
}

/// Normalisation keeps a last segment that is named: it is the last
/// component, the last segment of the normal form, and the end of it.
pub proof fn lemma_file_name_kept(path: Seq<char>)
    requires
        is_named(file_name(path)),
    ensures
        components(path) == kept(segments(path).drop_last()).push(file_name(path)),
        file_name(normalized(path)) == file_name(path),
        ends_with(normalized(path), file_name(path)),
{
    lemma_segments_shape(path);
    lemma_components_shape(path);
    let file = file_name(path);
    let before = segments(path).drop_last();
    assert(before.push(file) =~= segments(path));
    lemma_kept_push(before, file);
    let parts = components(path);
    let normal = normalized(path);
    if is_absolute(path) {
        lemma_segments_of_rooted(parts);
    } else {
        lemma_segments_of_joined(parts);
    }
    lemma_joined_push(kept(before), file);
    assert(normal.subrange(normal.len() - file.len(), normal.len() as int) =~= file);
}

/// A path that ends in a separator and a plain run has that run as its
/// last segment.
pub proof fn lemma_file_name_of_joined(dir: Seq<char>, file: Seq<char>)
    requires
        is_plain(file),
    ensures
        file_name(dir + seq!['/'] + file) == file,
{
    lemma_segments_append_segment(dir, file);
}

/// A path that ends in a plain run has a last segment that ends in it.
pub proof fn lemma_file_name_ends(path: Seq<char>, run: Seq<char>)
    requires
        is_plain(run),
    ensures
        ends_with(file_name(path + run), run),
{
    lemma_segments_shape(path);
    lemma_segments_append_plain(path, run);
    let last = segments(path).last() + run;
    assert(last.subrange(last.len() - run.len(), last.len() as int) =~= run);
}

/// A text that ends with a suffix of a suffix of it.
pub proof fn lemma_ends_with_chain(text: Seq<char>, middle: Seq<char>, suffix: Seq<char>)
    requires
        ends_with(text, middle),
        ends_with(middle, suffix),
    ensures
        ends_with(text, suffix),
{
    let cut = text.len() - middle.len();
    let tail = text.subrange(cut, text.len() as int);
    assert(text.subrange(text.len() - suffix.len(), text.len() as int) =~= tail.subrange(
        middle.len() - suffix.len(),
        middle.len() as int,
    ));
}

/// Moves the segment in `seg` behind what `out` holds, if normalisation
/// keeps it, and empties `seg`. `done` are the segments closed before it.
fn close_segment(
    out: &mut Vec<char>,
    seg: &mut Vec<char>,
    first: bool,
    any: &mut bool,
    Ghost(absolute): Ghost<bool>,
    Ghost(done): Ghost<Seq<Seq<char>>>,
)
    requires
        old(out)@ == rendered(absolute, kept(done)),
        *old(any) == (kept(done).len() > 0),
        first == (done.len() == 0),
    ensures
        final(out)@ == rendered(absolute, kept(done.push(old(seg)@))),
        *final(any) == (kept(done.push(old(seg)@)).len() > 0),
        final(seg)@.len() == 0,
{
    proof {
        lemma_kept_push(done, seg@);
        lemma_joined_push(kept(done), seg@);
    }
    let is_dot = seg.len() == 1 && seg[0] == '.';
    assert(is_dot == (seg@ =~= dot()));
    if seg.len() > 0 && (!is_dot || first) {
        if *any {
            out.push('/');
        }
        assert(old(out)@.push('/') =~= old(out)@ + seq!['/']);
        out.append(seg);
        *any = true;
        assert(final(out)@ =~= rendered(absolute, kept(done).push(old(seg)@)));
    } else {
        seg.clear();
    }
}

/// The normal form of the path that `chars` spell: separators that repeat
/// or trail are dropped, and so is every `.` segment but a leading one.
pub fn normalize_chars(chars: &Vec<char>) -> (normal: Vec<char>)
    ensures
        normal@ == normalized(chars@),
        is_normalized(normal@),
{
    let absolute = chars.len() > 0 && chars[0] == '/';
    let mut out: Vec<char> = Vec::new();
    if absolute {
        out.push('/');
    }
    let mut seg: Vec<char> = Vec::new();
    let mut first = true;
    let mut any = false;
    let mut i: usize = 0;
    proof {
        assert(chars@.subrange(0, 0) =~= Seq::<char>::empty());
        assert(segments(chars@.subrange(0, 0)).drop_last() =~= Seq::<Seq<char>>::empty());
        reveal(Seq::filter);
    }
    while i < chars.len()
        invariant
            i <= chars.len(),
            absolute == is_absolute(chars@),
            segments(chars@.subrange(0, i as int)).len() >= 1,
            seg@ == segments(chars@.subrange(0, i as int)).last(),
            first == (segments(chars@.subrange(0, i as int)).len() == 1),
            any == (kept(segments(chars@.subrange(0, i as int)).drop_last()).len() > 0),
            out@ == rendered(absolute, kept(segments(chars@.subrange(0, i as int)).drop_last())),
        decreases chars.len() - i,
    {
        let ghost read = chars@.subrange(0, i as int);
        let ghost done = segments(read).drop_last();
        let c = chars[i];
        proof {
            lemma_segments_push(read, c);
            assert(chars@.subrange(0, i + 1) =~= read.push(c));
            assert(done.push(seg@) =~= segments(read));
        }
        if c == '/' {
            close_segment(&mut out, &mut seg, first, &mut any, Ghost(absolute), Ghost(done));
            first = false;
            proof {
                assert(segments(read.push(c)).drop_last() =~= segments(read));
            }
        } else {
            seg.push(c);
            proof {
                assert(segments(read.push(c)).drop_last() =~= done);
            }
        }
        i += 1;
    }
    let ghost done = segments(chars@).drop_last();
    proof {
        assert(chars@.subrange(0, i as int) =~= chars@);
        assert(done.push(seg@) =~= segments(chars@));
        lemma_normalized_idempotent(chars@);
    }
    close_segment(&mut out, &mut seg, first, &mut any, Ghost(absolute), Ghost(done));
    out
}

/// The normal form of `path`.
pub fn normalize(path: &str) -> (normal: String)
    ensures
        normal@ == normalized(path@),
        is_normalized(normal@),
{
    let chars = chars_of(path);
    let normal = normalize_chars(&chars);
    string_of(&normal)
}

} // verus!
