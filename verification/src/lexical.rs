//! Text as sequences of characters: joining pieces of token text and ordering
//! identifiers.

use vstd::prelude::*;

verus! {

/// Two pieces of text side by side, with `sep` between them where both are
/// present.
pub open spec fn joined_with(left: Seq<char>, sep: Seq<char>, right: Seq<char>) -> Seq<char> {
    if left.len() == 0 {
        right
    } else if right.len() == 0 {
        left
    } else {
        left + sep + right
    }
}

/// Two pieces of token text side by side: one space between them where both
/// are present, so that their tokens stay apart.
pub open spec fn joined(left: Seq<char>, right: Seq<char>) -> Seq<char> {
    joined_with(left, seq![' '], right)
}

/// Joining pieces is associative: a run of pieces reads the same however it is
/// grouped.
pub proof fn lemma_joined_associative(a: Seq<char>, b: Seq<char>, c: Seq<char>)
    ensures
        joined(joined(a, b), c) == joined(a, joined(b, c)),
{
    assert(joined(joined(a, b), c) =~= joined(a, joined(b, c)));
}

/// Appends `piece` to `text`, with `sep` between them where both are present.
pub fn push_with(text: &mut String, sep: &str, piece: &str)
    ensures
        final(text)@ == joined_with(old(text)@, sep@, piece@),
{
    if piece.unicode_len() == 0 {
        return ;
    }
    if text.as_str().unicode_len() != 0 {
        text.append(sep);
    }
    text.append(piece);
}

/// Appends `piece` to `text`, with a space between them where both are present.
pub fn push_piece(text: &mut String, piece: &str)
    ensures
        final(text)@ == joined(old(text)@, piece@),
{
    proof {
        reveal_strlit(" ");
        assert(" "@ =~= seq![' ']);
    }
    push_with(text, " ", piece);
}

/// An identifier without the `r#` of a raw identifier.
pub open spec fn plain_ident(ident: Seq<char>) -> Seq<char> {
    if ident.len() >= 2 && ident[0] == 'r' && ident[1] == '#' {
        ident.skip(2)
    } else {
        ident
    }
}

/// Strips the `r#` from a raw identifier and leaves any other as it is.
pub fn strip_raw(ident: &str) -> (plain: String)
    ensures
        plain@ == plain_ident(ident@),
{
    let len = ident.unicode_len();
    if len >= 2 && ident.get_char(0) == 'r' && ident.get_char(1) == '#' {
        let rest = ident.substring_char(2, len);
        proof {
            assert(ident@.subrange(2, len as int) =~= ident@.skip(2));
        }
        String::from_str(rest)
    } else {
        String::from_str(ident)
    }
}

/// Whether a text ends with a comma.
pub fn ends_with_comma(text: &str) -> (found: bool)
    ensures
        found <==> text@.len() > 0 && text@.last() == ',',
{
    let len = text.unicode_len();
    len > 0 && text.get_char(len - 1) == ','
}

/// `a` and `b` agree on their first `k` characters, and right after them `a`
/// ends while `b` goes on, or `a` has the smaller character.
pub open spec fn parts_at(a: Seq<char>, b: Seq<char>, k: int) -> bool {
    &&& 0 <= k <= a.len()
    &&& k < b.len()
    &&& a.subrange(0, k) == b.subrange(0, k)
    &&& (k == a.len() || (a[k] as u32) < (b[k] as u32))
}

/// The lexicographic order of identifiers, by the code points of their
/// characters: upper case comes before lower case, a proper prefix before what
/// it is a prefix of.
pub open spec fn precedes(a: Seq<char>, b: Seq<char>) -> bool {
    exists|k: int| parts_at(a, b, k)
}

/// How one identifier stands to another in the lexicographic order.
#[derive(Clone, Copy, Debug, PartialEq, Eq, Structural)]
pub enum IdentOrder {
    Before,
    Same,
    After,
}

/// The place of `a` relative to `b`.
pub open spec fn order_of(a: Seq<char>, b: Seq<char>) -> IdentOrder {
    if a == b {
        IdentOrder::Same
    } else if precedes(a, b) {
        IdentOrder::Before
    } else {
        IdentOrder::After
    }
}

/// No identifier precedes itself.
pub proof fn lemma_precedes_irreflexive(a: Seq<char>)
    ensures
        !precedes(a, a),
{
    if precedes(a, a) {
        let k = choose|k: int| parts_at(a, a, k);
        assert(parts_at(a, a, k));
    }
}

/// The order is transitive.
pub proof fn lemma_precedes_transitive(a: Seq<char>, b: Seq<char>, c: Seq<char>)
    requires
        precedes(a, b),
        precedes(b, c),
    ensures
        precedes(a, c),
{
    let i = choose|k: int| parts_at(a, b, k);
    let j = choose|k: int| parts_at(b, c, k);
    let m = if i <= j { i } else { j };
    assert(a.subrange(0, m) =~= c.subrange(0, m)) by {
        assert forall|x: int| 0 <= x < m implies a[x] == c[x] by {
            assert(a[x] == a.subrange(0, i)[x]);
            assert(b[x] == b.subrange(0, i)[x]);
            assert(b[x] == b.subrange(0, j)[x]);
            assert(c[x] == c.subrange(0, j)[x]);
        }
    }
    if i < j {
        assert(b[i] == b.subrange(0, j)[i]);
        assert(c[i] == c.subrange(0, j)[i]);
    }
    if j < i {
        assert(a[j] == a.subrange(0, i)[j]);
        assert(b[j] == b.subrange(0, i)[j]);
    }
    assert(parts_at(a, c, m));
}

/// Of two identifiers, at most one precedes the other.
pub proof fn lemma_precedes_asymmetric(a: Seq<char>, b: Seq<char>)
    requires
        precedes(a, b),
    ensures
        !precedes(b, a),
        a != b,
{
    lemma_precedes_irreflexive(a);
    if precedes(b, a) {
        lemma_precedes_transitive(a, b, a);
    }
}

/// Compares two identifiers character by character.
pub fn compare_idents(a: &str, b: &str) -> (order: IdentOrder)
    ensures
        order == order_of(a@, b@),
        order == IdentOrder::Before <==> precedes(a@, b@),
        order == IdentOrder::After <==> precedes(b@, a@),
        order == IdentOrder::Same <==> a@ == b@,
{
    let n = a.unicode_len();
    let m = b.unicode_len();
    let mut i: usize = 0;
    while i < n && i < m
        invariant
            n == a@.len(),
            m == b@.len(),
            i <= n,
            i <= m,
            a@.subrange(0, i as int) == b@.subrange(0, i as int),
        decreases n - i,
    {
        let x = a.get_char(i);
        let y = b.get_char(i);
        if x != y {
            proof {
                if (x as u32) < (y as u32) {
                    assert(parts_at(a@, b@, i as int));
                    lemma_precedes_asymmetric(a@, b@);
                } else {
                    assert(parts_at(b@, a@, i as int));
                    lemma_precedes_asymmetric(b@, a@);
                }
            }
            return if (x as u32) < (y as u32) {
                IdentOrder::Before
            } else {
                IdentOrder::After
            };
        }
        proof {
            assert(a@.subrange(0, i + 1) =~= a@.subrange(0, i as int).push(x));
            assert(b@.subrange(0, i + 1) =~= b@.subrange(0, i as int).push(y));
        }
        i += 1;
    }
    if n == m {
        proof {
            assert(a@ =~= a@.subrange(0, n as int));
            assert(b@ =~= b@.subrange(0, m as int));
            lemma_precedes_irreflexive(a@);
        }
        IdentOrder::Same
    } else if n < m {
        proof {
            assert(parts_at(a@, b@, n as int));
            lemma_precedes_asymmetric(a@, b@);
        }
        IdentOrder::Before
    } else {
        proof {
            assert(parts_at(b@, a@, m as int));
            lemma_precedes_asymmetric(b@, a@);
        }
        IdentOrder::After
    }
}

} // verus!
