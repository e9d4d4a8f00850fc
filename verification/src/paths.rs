//! Paths as `/`-separated text: file names, extensions and components, with the meaning
//! that `std::path::Path` gives them on Unix.

use vstd::prelude::*;

use crate::text::{chars_of, copy_chars, pieces_view, split_chars, split_spec, string_from_chars};

verus! {

/// Whether a piece between separators names a file or directory (not empty, not `.`).
pub open spec fn is_named_piece(piece: Seq<char>) -> bool {
    piece.len() > 0 && piece != seq!['.']
}

/// The named pieces of a sequence of pieces, in order.
pub open spec fn named_pieces(pieces: Seq<Seq<char>>) -> Seq<Seq<char>>
    decreases pieces.len(),
{
    if pieces.len() == 0 {
        Seq::empty()
    } else {
        let rest = named_pieces(pieces.drop_last());
        if is_named_piece(pieces.last()) {
            rest.push(pieces.last())
        } else {
            rest
        }
    }
}

/// The components of a path that name something (`..` included, `.` and empty ones not).
pub open spec fn path_components(p: Seq<char>) -> Seq<Seq<char>> {
    named_pieces(split_spec(p, '/'))
}

/// The final component of a path, unless it is `..` or the path has none
/// (`Path::file_name`).
pub open spec fn file_name_spec(p: Seq<char>) -> Option<Seq<char>> {
    let c = path_components(p);
    if c.len() > 0 && c.last() != seq!['.', '.'] {
        Some(c.last())
    } else {
        None
    }
}

/// Index of the last occurrence of `c` in `s`.
pub open spec fn last_index_of(s: Seq<char>, c: char) -> Option<nat>
    decreases s.len(),
{
    if s.len() == 0 {
        None
    } else if s.last() == c {
        Some((s.len() - 1) as nat)
    } else {
        last_index_of(s.drop_last(), c)
    }
}

/// The extension of a file name: what follows its last dot, unless there is no dot or the
/// only dot leads the name.
pub open spec fn name_extension(name: Seq<char>) -> Option<Seq<char>> {
    match last_index_of(name, '.') {
        Some(i) => if i == 0 {
            None
        } else {
            Some(name.skip(i + 1 as int))
        },
        None => None,
    }
}

/// The extension of a path (`Path::extension`).
pub open spec fn extension_spec(p: Seq<char>) -> Option<Seq<char>> {
    match file_name_spec(p) {
        Some(name) => name_extension(name),
        None => None,
    }
}

/// The stem of a file name: what precedes its last dot, or the whole name when there is no
/// dot or the only dot leads the name.
pub open spec fn name_stem(name: Seq<char>) -> Seq<char> {
    match last_index_of(name, '.') {
        Some(i) => if i == 0 {
            name
        } else {
            name.take(i as int)
        },
        None => name,
    }
}

/// The stem of a path's file name (`Path::file_stem`).
pub open spec fn file_stem_spec(p: Seq<char>) -> Option<Seq<char>> {
    match file_name_spec(p) {
        Some(name) => Some(name_stem(name)),
        None => None,
    }
}

proof fn lemma_last_index_bound(s: Seq<char>, c: char)
    ensures
        last_index_of(s, c) matches Some(i) ==> i < s.len() && s[i as int] == c,
    decreases s.len(),
{
    if s.len() > 0 && s.last() != c {
        lemma_last_index_bound(s.drop_last(), c);
    }
}

fn named_pieces_of(pieces: &Vec<Vec<char>>) -> (out: Vec<Vec<char>>)
    ensures
        pieces_view(out@) == named_pieces(pieces_view(pieces@)),
{
    let mut out: Vec<Vec<char>> = Vec::new();
    let mut i: usize = 0;
    while i < pieces.len()
        invariant
            i <= pieces.len(),
            pieces_view(out@) == named_pieces(pieces_view(pieces@).take(i as int)),
        decreases pieces.len() - i,
    {
        let ghost pv = pieces_view(pieces@);
        assert(pv.take(i + 1).drop_last() == pv.take(i as int));
        let piece = &pieces[i];
        let named = piece.len() > 0 && !(piece.len() == 1 && piece[0] == '.');
        assert(named == is_named_piece(piece@)) by {
            if piece.len() == 1 {
                assert(piece@ == seq![piece@[0]]);
            }
        }
        if named {
            out.push(copy_chars(piece, 0, piece.len()));
            assert(piece@.subrange(0, piece@.len() as int) == piece@);
        }
        assert(pieces_view(out@) =~= named_pieces(pv.take(i + 1)));
        i = i + 1;
    }
    assert(pieces_view(pieces@).take(pieces.len() as int) == pieces_view(pieces@));
    out
}

/// The components of a path that name something.
pub fn components(path: &str) -> (c: Vec<Vec<char>>)
    ensures
        pieces_view(c@) == path_components(path@),
{
    let chars = chars_of(path);
    let pieces = split_chars(&chars, '/');
    named_pieces_of(&pieces)
}

/// The final component of a path as characters, if it names a file or directory.
pub fn file_name_chars(path: &str) -> (name: Option<Vec<char>>)
    ensures
        name matches Some(n) ==> file_name_spec(path@) == Some(n@),
        name is None ==> file_name_spec(path@) is None,
{
    let chars = chars_of(path);
    let pieces = split_chars(&chars, '/');
    let named = named_pieces_of(&pieces);
    if named.len() == 0 {
        return None;
    }
    let last = &named[named.len() - 1];
    let dotdot = last.len() == 2 && last[0] == '.' && last[1] == '.';
    assert(dotdot == (last@ == seq!['.', '.'])) by {
        if last.len() == 2 {
            assert(last@ =~= seq![last@[0], last@[1]]);
        }
    }
    if dotdot {
        None
    } else {
        Some(copy_chars(last, 0, last.len()))
    }
}

/// The final component of a path (`Path::file_name`).
pub fn file_name(path: &str) -> (name: Option<String>)
    ensures
        name matches Some(n) ==> file_name_spec(path@) == Some(n@),
        name is None ==> file_name_spec(path@) is None,
{
    match file_name_chars(path) {
        Some(n) => Some(string_from_chars(n.as_slice())),
        None => None,
    }
}

/// The extension of a file name, as characters.
fn name_extension_chars(name: &Vec<char>) -> (ext: Option<Vec<char>>)
    ensures
        ext matches Some(e) ==> name_extension(name@) == Some(e@),
        ext is None ==> name_extension(name@) is None,
{
    let mut i = name.len();
    assert(name@.take(i as int) == name@);
    while i > 0 && name[i - 1] != '.'
        invariant
            i <= name.len(),
            last_index_of(name@, '.') == last_index_of(name@.take(i as int), '.'),
        decreases i,
    {
        assert(name@.take(i as int).drop_last() == name@.take(i - 1));
        i = i - 1;
    }
    if i == 0 {
        None
    } else {
        assert(name@.take(i as int).last() == '.');
        if i == 1 {
            None
        } else {
            Some(copy_chars(name, i, name.len()))
        }
    }
}

/// The extension of a path's file name (`Path::extension`), as characters.
pub fn extension_chars(path: &str) -> (ext: Option<Vec<char>>)
    ensures
        ext matches Some(e) ==> extension_spec(path@) == Some(e@),
        ext is None ==> extension_spec(path@) is None,
{
    match file_name_chars(path) {
        Some(n) => name_extension_chars(&n),
        None => None,
    }
}

/// The extension of a path's file name (`Path::extension`).
pub fn extension(path: &str) -> (ext: Option<String>)
    ensures
        ext matches Some(e) ==> extension_spec(path@) == Some(e@),
        ext is None ==> extension_spec(path@) is None,
{
    match extension_chars(path) {
        Some(e) => Some(string_from_chars(e.as_slice())),
        None => None,
    }
}

/// The stem of a file name, as characters.
fn name_stem_chars(name: &Vec<char>) -> (stem: Vec<char>)
    ensures
        stem@ == name_stem(name@),
{
    let mut i = name.len();
    assert(name@.take(i as int) == name@);
    while i > 0 && name[i - 1] != '.'
        invariant
            i <= name.len(),
            last_index_of(name@, '.') == last_index_of(name@.take(i as int), '.'),
        decreases i,
    {
        assert(name@.take(i as int).drop_last() == name@.take(i - 1));
        i = i - 1;
    }
    if i <= 1 {
        if i == 1 {
            assert(name@.take(1).last() == '.');
        }
        let whole = copy_chars(name, 0, name.len());
        assert(name@.subrange(0, name.len() as int) == name@);
        whole
    } else {
        assert(name@.take(i as int).last() == '.');
        let stem = copy_chars(name, 0, i - 1);
        assert(name@.subrange(0, i - 1) == name@.take(i - 1));
        stem
    }
}

/// The stem of a path's file name (`Path::file_stem`).
pub fn file_stem(path: &str) -> (stem: Option<String>)
    ensures
        stem matches Some(s) ==> file_stem_spec(path@) == Some(s@),
        stem is None ==> file_stem_spec(path@) is None,
{
    match file_name_chars(path) {
        Some(n) => {
            let s = name_stem_chars(&n);
            Some(string_from_chars(s.as_slice()))
        },
        None => None,
    }
}

/// Whether a path starts at the root.
pub open spec fn is_rooted(p: Seq<char>) -> bool {
    p.len() > 0 && p[0] == '/'
}

/// Whether a relative path begins with a `.` component (`./x`, or `.` alone).
pub open spec fn starts_at_cur_dir(p: Seq<char>) -> bool {
    !is_rooted(p) && p.len() > 0 && p[0] == '.' && (p.len() == 1 || p[1] == '/')
}

/// The components of a path as `Path::components` yields them: `/` for the root, `.` for a
/// leading current-directory component, then the named components.
pub open spec fn std_components(p: Seq<char>) -> Seq<Seq<char>> {
    let lead = if is_rooted(p) {
        seq![seq!['/']]
    } else if starts_at_cur_dir(p) {
        seq![seq!['.']]
    } else {
        Seq::<Seq<char>>::empty()
    };
    lead + path_components(p)
}

/// The components of a path as `Path::components` yields them.
pub fn std_components_of(path: &str) -> (c: Vec<Vec<char>>)
    ensures
        pieces_view(c@) == std_components(path@),
{
    let chars = chars_of(path);
    let named = components(path);
    let rooted = chars.len() > 0 && chars[0] == '/';
    let cur = !rooted && chars.len() > 0 && chars[0] == '.' && (chars.len() == 1 || chars[1] == '/');
    let mut out: Vec<Vec<char>> = Vec::new();
    assert(chars@ == path@);
    if rooted {
        let root: Vec<char> = vec!['/'];
        assert(root@ =~= seq!['/']);
        out.push(root);
        assert(pieces_view(out@) =~= seq![seq!['/']]);
    } else if cur {
        let dot: Vec<char> = vec!['.'];
        assert(dot@ =~= seq!['.']);
        out.push(dot);
        assert(pieces_view(out@) =~= seq![seq!['.']]);
    } else {
        assert(pieces_view(out@) =~= Seq::<Seq<char>>::empty());
    }
    let ghost lead = pieces_view(out@);
    assert(lead == (if is_rooted(path@) {
        seq![seq!['/']]
    } else if starts_at_cur_dir(path@) {
        seq![seq!['.']]
    } else {
        Seq::<Seq<char>>::empty()
    }));
    let mut i: usize = 0;
    while i < named.len()
        invariant
            i <= named.len(),
            pieces_view(out@) == lead + pieces_view(named@).take(i as int),
        decreases named.len() - i,
    {
        let ghost before = out@;
        out.push(copy_chars(&named[i], 0, named[i].len()));
        assert(named[i as int]@.subrange(0, named[i as int]@.len() as int) == named[i as int]@);
        assert(pieces_view(named@).take(i + 1) == pieces_view(named@).take(i as int).push(named[i as int]@));
        assert(pieces_view(out@) =~= pieces_view(before).push(named[i as int]@));
        i = i + 1;
    }
    assert(pieces_view(named@).take(named.len() as int) == pieces_view(named@));
    out
}

} // verus!
