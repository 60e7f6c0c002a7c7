//! Text handling of the chat node: configuration switches, the comma-separated
//! list of bootstrap peers, and the test for a blank input line.
use vstd::prelude::*;
use vstd::string::*;

verus! {

/// The separator between entries of a peer list.
pub open spec fn separator() -> char {
    ','
}

/// The pieces of `s` between its commas, in order: a text with `k` commas has
/// `k + 1` pieces, and a text without commas is its own single piece.
pub open spec fn split_at_commas(s: Seq<char>) -> Seq<Seq<char>>
    decreases s.len(),
{
    if s.len() == 0 {
        seq![Seq::<char>::empty()]
    } else {
        let rest = split_at_commas(s.drop_last());
        if s.last() == separator() {
            rest.push(Seq::<char>::empty())
        } else {
            rest.update(rest.len() - 1, rest.last().push(s.last()))
        }
    }
}

/// The pieces written one after another with a comma between each two.
pub open spec fn join_with_commas(parts: Seq<Seq<char>>) -> Seq<char>
    decreases parts.len(),
{
    if parts.len() == 0 {
        Seq::<char>::empty()
    } else if parts.len() == 1 {
        parts[0]
    } else {
        join_with_commas(parts.drop_last()) + seq![separator()] + parts.last()
    }
}

/// The texts held by a sequence of strings.
pub open spec fn texts_of(v: Seq<String>) -> Seq<Seq<char>> {
    v.map_values(|p: String| p@)
}

/// Unicode's `White_Space` property (PropList.txt), which `str::trim` removes.
pub open spec fn is_white_space(c: char) -> bool {
    let v = c as int;
    ||| 0x09 <= v <= 0x0d
    ||| v == 0x20
    ||| v == 0x85
    ||| v == 0xa0
    ||| v == 0x1680
    ||| 0x2000 <= v <= 0x200a
    ||| v == 0x2028
    ||| v == 0x2029
    ||| v == 0x202f
    ||| v == 0x205f
    ||| v == 0x3000
}

/// A line is blank when nothing is left of it after trimming white space.
pub open spec fn is_blank_text(s: Seq<char>) -> bool {
    forall|i: int| 0 <= i < s.len() ==> is_white_space(#[trigger] s[i])
}

/// What a switch setting means: an unset switch is on, a set one is on exactly
/// when it reads `true`.
pub open spec fn switch_on(setting: Option<Seq<char>>) -> bool {
    match setting {
        None => true,
        Some(t) => t == "true"@,
    }
}

proof fn lemma_split_nonempty(s: Seq<char>)
    ensures
        split_at_commas(s).len() >= 1,
    decreases s.len(),
{
    if s.len() > 0 {
        lemma_split_nonempty(s.drop_last());
    }
}

/// Splitting a text at its commas and joining the pieces with commas gives the
/// text back, and no piece holds a comma.
pub proof fn lemma_split_join(s: Seq<char>)
    ensures
        join_with_commas(split_at_commas(s)) == s,
        split_at_commas(s).len() >= 1,
        forall|i: int, j: int|
            0 <= i < split_at_commas(s).len() && 0 <= j < split_at_commas(s)[i].len()
                ==> split_at_commas(s)[i][j] != separator(),
    decreases s.len(),
{
    lemma_split_nonempty(s);
    if s.len() > 0 {
        let prefix = s.drop_last();
        let rest = split_at_commas(prefix);
        lemma_split_join(prefix);
        let parts = split_at_commas(s);
        if s.last() == separator() {
            assert(parts.drop_last() =~= rest);
            assert(join_with_commas(parts) == join_with_commas(rest) + seq![separator()]
                + Seq::<char>::empty());
            assert(s =~= prefix + seq![separator()] + Seq::<char>::empty());
        } else {
            let n = rest.len();
            if n == 1 {
                assert(s =~= rest[0].push(s.last()));
            } else {
                assert(parts.drop_last() =~= rest.drop_last());
                assert(join_with_commas(rest) == join_with_commas(rest.drop_last()) + seq![
                    separator(),
                ] + rest.last());
                assert(s =~= prefix.push(s.last()));
                assert(prefix == join_with_commas(rest.drop_last()) + seq![separator()]
                    + rest.last());
                assert(s =~= join_with_commas(rest.drop_last()) + seq![separator()]
                    + rest.last().push(s.last()));
            }
            assert forall|i: int, j: int|
                0 <= i < parts.len() && 0 <= j < parts[i].len() implies parts[i][j]
                != separator() by {
                if i == n - 1 && j == rest.last().len() {
                } else {
                    assert(parts[i][j] == rest[i][j]);
                }
            }
        }
    }
}

/// Whether a configuration switch is on. An unset switch is on; a set one is
/// on exactly when its text is `true`.
pub fn switch_enabled(setting: Option<&str>) -> (on: bool)
    ensures
        on == switch_on(
            match setting {
                None => None,
                Some(t) => Some(t@),
            },
        ),
        setting is None ==> on,
        setting matches Some(t) ==> (on <==> t@ == "true"@),
{
    match setting {
        None => true,
        Some(t) => {
            let given: String = t.to_owned();
            let expected: String = "true".to_owned();
            given == expected
        },
    }
}

/// Whether a character is white space in Unicode's sense.
pub fn white_space(c: char) -> (w: bool)
    ensures
        w == is_white_space(c),
{
    let v: u32 = c as u32;
    (0x09 <= v && v <= 0x0d) || v == 0x20 || v == 0x85 || v == 0xa0 || v == 0x1680 || (0x2000
        <= v && v <= 0x200a) || v == 0x2028 || v == 0x2029 || v == 0x202f || v == 0x205f || v
        == 0x3000
}

/// Whether a line holds nothing but white space (the empty line included).
pub fn is_blank(line: &str) -> (blank: bool)
    ensures
        blank == is_blank_text(line@),
{
    let n: usize = line.unicode_len();
    let mut i: usize = 0;
    while i < n
        invariant
            n == line@.len(),
            i <= n,
            forall|k: int| 0 <= k < i ==> is_white_space(#[trigger] line@[k]),
        decreases n - i,
    {
        let c: char = line.get_char(i);
        if !white_space(c) {
            return false;
        }
        i = i + 1;
    }
    true
}

/// The entries of a comma-separated list, in order, as `str::split(',')`
/// gives them: empty entries are kept, and there is always at least one.
pub fn split_list(list: &str) -> (pieces: Vec<String>)
    ensures
        texts_of(pieces@) == split_at_commas(list@),
{
    let n: usize = list.unicode_len();
    let mut pieces: Vec<String> = Vec::new();
    let mut start: usize = 0;
    let mut i: usize = 0;
    assert(list@.subrange(0, 0) =~= Seq::<char>::empty());
    assert(texts_of(pieces@) =~= Seq::<Seq<char>>::empty());
    assert(texts_of(pieces@).push(list@.subrange(0, 0)) =~= split_at_commas(
        list@.subrange(0, 0),
    ));
    while i < n
        invariant
            n == list@.len(),
            start <= i <= n,
            texts_of(pieces@).push(list@.subrange(start as int, i as int)) == split_at_commas(
                list@.subrange(0, i as int),
            ),
        decreases n - i,
    {
        let c: char = list.get_char(i);
        let ghost before = list@.subrange(0, i as int);
        let ghost after = list@.subrange(0, i as int + 1);
        assert(after.drop_last() =~= before);
        assert(after.last() == c);
        let ghost old_pieces = pieces@;
        let ghost old_start = start;
        if c == ',' {
            let piece: String = list.substring_char(start, i).to_owned();
            pieces.push(piece);
            start = i + 1;
            assert(texts_of(pieces@) =~= texts_of(old_pieces).push(
                list@.subrange(old_start as int, i as int),
            ));
            assert(list@.subrange(start as int, i as int + 1) =~= Seq::<char>::empty());
            assert(texts_of(pieces@).push(list@.subrange(start as int, i as int + 1))
                =~= split_at_commas(before).push(Seq::<char>::empty()));
        } else {
            proof {
                lemma_split_nonempty(before);
                let parts = split_at_commas(before);
                assert(list@.subrange(start as int, i as int + 1) =~= list@.subrange(
                    start as int,
                    i as int,
                ).push(c));
                assert(texts_of(pieces@).push(list@.subrange(start as int, i as int + 1))
                    =~= parts.update(parts.len() - 1, parts.last().push(c)));
            }
        }
        i = i + 1;
    }
    let last: String = list.substring_char(start, n).to_owned();
    pieces.push(last);
    assert(list@.subrange(0, n as int) =~= list@);
    assert(texts_of(pieces@) =~= texts_of(pieces@.drop_last()).push(last@));
    pieces
}

} // verus!
