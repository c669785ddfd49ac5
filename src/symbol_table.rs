use vstd::prelude::*;
use crate::token::{Category, KeywordKind, Token, TokenView, plain, copy_bytes};

verus! {

/// The entries of a table, in order of insertion: each spelling with its token.
pub type Entries = Seq<(Seq<u8>, TokenView)>;

/// Some entry of `e` is keyed by `key`.
pub open spec fn has_key(e: Entries, key: Seq<u8>) -> bool {
    exists|i: int| 0 <= i < e.len() && (#[trigger] e[i]).0 == key
}

/// The token that `e` holds for `key`, where it holds one.
pub open spec fn token_for(e: Entries, key: Seq<u8>) -> TokenView {
    e[choose|i: int| 0 <= i < e.len() && (#[trigger] e[i]).0 == key].1
}

/// No spelling has two entries, and every token's text is its spelling.
pub open spec fn well_keyed(e: Entries) -> bool {
    &&& forall|i: int, j: int| 0 <= i < j < e.len() ==> (#[trigger] e[i]).0 != (#[trigger] e[j]).0
    &&& forall|i: int| 0 <= i < e.len() ==> (#[trigger] e[i]).1.text == e[i].0
}

/// Interning `key` in `before` gave `token` and left `after`: an entry already
/// there is returned and the table kept; otherwise a new identifier is added.
pub open spec fn interned(before: Entries, key: Seq<u8>, token: TokenView, after: Entries) -> bool {
    if has_key(before, key) {
        token == token_for(before, key) && after == before
    } else {
        token == plain(Category::Identifier, key) && after == before.push((key, token))
    }
}

/// The spelling of each keyword, in ASCII codes.
pub open spec fn keyword_text(k: KeywordKind) -> Seq<u8> {
    match k {
        KeywordKind::Else => seq![101u8, 108, 115, 101],
        KeywordKind::Import => seq![105u8, 109, 112, 111, 114, 116],
        KeywordKind::Return => seq![114u8, 101, 116, 117, 114, 110],
        KeywordKind::For => seq![102u8, 111, 114],
        KeywordKind::As => seq![97u8, 115],
        KeywordKind::Def => seq![100u8, 101, 102],
        KeywordKind::Elif => seq![101u8, 108, 105, 102],
        KeywordKind::If => seq![105u8, 102],
    }
}

/// The keyword token for `k`.
pub open spec fn keyword_token(k: KeywordKind) -> TokenView {
    TokenView { category: Category::Keyword, text: keyword_text(k), keyword: Some(k) }
}

/// The table that a scan starts from: the eight keywords.
pub open spec fn keyword_seed() -> Entries {
    seq![
        (keyword_text(KeywordKind::Else), keyword_token(KeywordKind::Else)),
        (keyword_text(KeywordKind::Import), keyword_token(KeywordKind::Import)),
        (keyword_text(KeywordKind::Return), keyword_token(KeywordKind::Return)),
        (keyword_text(KeywordKind::For), keyword_token(KeywordKind::For)),
        (keyword_text(KeywordKind::As), keyword_token(KeywordKind::As)),
        (keyword_text(KeywordKind::Def), keyword_token(KeywordKind::Def)),
        (keyword_text(KeywordKind::Elif), keyword_token(KeywordKind::Elif)),
        (keyword_text(KeywordKind::If), keyword_token(KeywordKind::If)),
    ]
}

/// Byte-wise equality of two byte strings.
pub fn bytes_eq(a: &Vec<u8>, b: &Vec<u8>) -> (r: bool)
    ensures
        r == (a@ == b@),
{
    if a.len() != b.len() {
        return false;
    }
    let mut i: usize = 0;
    while i < a.len()
        invariant
            a@.len() == b@.len(),
            i <= a@.len(),
            forall|k: int| 0 <= k < i ==> a@[k] == b@[k],
        decreases a@.len() - i,
    {
        if a[i] != b[i] {
            return false;
        }
        i = i + 1;
    }
    assert(a@ =~= b@);
    true
}

/// The mapping from spellings to their interned tokens.
pub struct SymbolTable {
    entries: Vec<(Vec<u8>, Token)>,
}

impl View for SymbolTable {
    type V = Entries;

    closed spec fn view(&self) -> Entries {
        self.entries@.map_values(|e: (Vec<u8>, Token)| (e.0@, e.1@))
    }
}

impl SymbolTable {
    /// An empty table.
    pub fn new() -> (r: SymbolTable)
        ensures
            r@ == Seq::<(Seq<u8>, TokenView)>::empty(),
    {
        let r = SymbolTable { entries: Vec::new() };
        assert(r@ =~= Seq::<(Seq<u8>, TokenView)>::empty());
        r
    }

    /// The number of entries.
    pub fn len(&self) -> (r: usize)
        ensures
            r == self@.len(),
    {
        self.entries.len()
    }

    /// Adds `k` to the table as a keyword, unless its spelling is there already.
    pub fn add_keyword(&mut self, k: KeywordKind) -> (added: bool)
        requires
            well_keyed(old(self)@),
        ensures
            well_keyed(final(self)@),
            added == !has_key(old(self)@, keyword_text(k)),
            added ==> final(self)@ == old(self)@.push((keyword_text(k), keyword_token(k))),
            !added ==> final(self)@ == old(self)@,
    {
        let text = keyword_bytes(k);
        let mut i: usize = 0;
        while i < self.entries.len()
            invariant
                i <= self@.len(),
                self@ == old(self)@,
                self.entries@.len() == self@.len(),
                text@ == keyword_text(k),
                well_keyed(self@),
                forall|j: int| 0 <= j < i ==> (#[trigger] self@[j]).0 != text@,
            decreases self@.len() - i,
        {
            if bytes_eq(&self.entries[i].0, &text) {
                assert(self@[i as int].0 == text@);
                return false;
            }
            i = i + 1;
        }
        let copy = copy_bytes(&text);
        self.entries.push((text, Token::Keyword(copy, k)));
        assert(self@ =~= old(self)@.push((keyword_text(k), keyword_token(k))));
        true
    }

    /// The table of the eight keywords.
    pub fn with_keywords() -> (r: SymbolTable)
        ensures
            r@ == keyword_seed(),
            well_keyed(r@),
    {
        let mut t = SymbolTable::new();
        t.add_keyword(KeywordKind::Else);
        t.add_keyword(KeywordKind::Import);
        t.add_keyword(KeywordKind::Return);
        t.add_keyword(KeywordKind::For);
        assert(keyword_text(KeywordKind::As)[0] != keyword_text(KeywordKind::Else)[0]);
        t.add_keyword(KeywordKind::As);
        assert(keyword_text(KeywordKind::Def)[0] != keyword_text(KeywordKind::For)[0]);
        t.add_keyword(KeywordKind::Def);
        assert(keyword_text(KeywordKind::Elif)[2] != keyword_text(KeywordKind::Else)[2]);
        t.add_keyword(KeywordKind::Elif);
        assert(keyword_text(KeywordKind::If)[0] != keyword_text(KeywordKind::As)[0]);
        t.add_keyword(KeywordKind::If);
        assert(t@ =~= keyword_seed());
        t
    }

    /// Returns the token held for `text`, adding a new identifier for it first
    /// when the table has none.
    pub fn lookup_or_insert(&mut self, text: Vec<u8>) -> (r: Token)
        requires
            well_keyed(old(self)@),
        ensures
            well_keyed(final(self)@),
            interned(old(self)@, text@, r@, final(self)@),
    {
        let mut i: usize = 0;
        while i < self.entries.len()
            invariant
                i <= self@.len(),
                self@ == old(self)@,
                self.entries@.len() == self@.len(),
                well_keyed(self@),
                forall|j: int| 0 <= j < i ==> (#[trigger] self@[j]).0 != text@,
            decreases self@.len() - i,
        {
            if bytes_eq(&self.entries[i].0, &text) {
                let r = self.entries[i].1.clone();
                proof {
                    let c = choose|j: int| 0 <= j < self@.len() && (#[trigger] self@[j]).0 == text@;
                    assert(self@[i as int].0 == text@);
                    assert(c == i);
                }
                return r;
            }
            i = i + 1;
        }
        let copy = copy_bytes(&text);
        self.entries.push((text, Token::Id(copy)));
        assert(self@ =~= old(self)@.push((text@, plain(Category::Identifier, text@))));
        Token::Id(copy_bytes(&self.entries[i].0))
    }
}

/// The spelling of a keyword, as bytes.
pub fn keyword_bytes(k: KeywordKind) -> (r: Vec<u8>)
    ensures
        r@ == keyword_text(k),
{
    let r = match k {
        KeywordKind::Else => vec![101u8, 108, 115, 101],
        KeywordKind::Import => vec![105u8, 109, 112, 111, 114, 116],
        KeywordKind::Return => vec![114u8, 101, 116, 117, 114, 110],
        KeywordKind::For => vec![102u8, 111, 114],
        KeywordKind::As => vec![97u8, 115],
        KeywordKind::Def => vec![100u8, 101, 102],
        KeywordKind::Elif => vec![101u8, 108, 105, 102],
        KeywordKind::If => vec![105u8, 102],
    };
    assert(r@ =~= keyword_text(k));
    r
}

/// Interning one spelling twice gives the same token both times, leaves the
/// table as the first call left it, and the table then holds exactly one entry
/// for that spelling.
pub proof fn lemma_interning_idempotent(
    t0: Entries,
    key: Seq<u8>,
    r1: TokenView,
    t1: Entries,
    r2: TokenView,
    t2: Entries,
)
    requires
        well_keyed(t0),
        interned(t0, key, r1, t1),
        interned(t1, key, r2, t2),
    ensures
        r1 == r2,
        t2 == t1,
        r2.text == key,
        exists|i: int| 0 <= i < t2.len() && (#[trigger] t2[i]).0 == key,
        forall|i: int, j: int|
            0 <= i < t2.len() && 0 <= j < t2.len() && (#[trigger] t2[i]).0 == key && (#[trigger] t2[j]).0 == key
                ==> i == j,
{
    if has_key(t0, key) {
        let c = choose|i: int| 0 <= i < t0.len() && (#[trigger] t0[i]).0 == key;
        assert(t0[c].0 == key);
    } else {
        let n = t0.len() as int;
        assert(t1[n].0 == key);
        let c = choose|i: int| 0 <= i < t1.len() && (#[trigger] t1[i]).0 == key;
        if c != n {
            assert(t0[c] == t1[c]);
        }
        assert forall|i: int, j: int|
            0 <= i < t1.len() && 0 <= j < t1.len() && (#[trigger] t1[i]).0 == key && (#[trigger] t1[j]).0 == key
                implies i == j by {
            if i != n {
                assert(t0[i] == t1[i]);
            }
            if j != n {
                assert(t0[j] == t1[j]);
            }
        }
    }
}

} // verus!
