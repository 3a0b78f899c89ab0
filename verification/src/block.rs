//! The script tree: a block is a list of items, an item is an optional key,
//! a comparator and a value, and a value is a token or a nested block.

use vstd::prelude::*;
use vstd::string::StringExecFns;
use crate::text::concat3;
use crate::text::str_eq;
use crate::token::Loc;
use crate::token::Token;
use crate::token::TokenView;

verus! {

/// The three spellings of the equals sign.
#[derive(Copy, Debug, PartialEq, Eq, Structural)]
pub enum EqKind {
    Single,
    Double,
    Question,
}

impl Clone for EqKind {
    fn clone(&self) -> (r: Self)
        ensures
            r == *self,
    {
        *self
    }
}

/// The operator between a key and its value.
#[derive(Copy, Debug, PartialEq, Eq, Structural)]
pub enum Comparator {
    Equals(EqKind),
    NotEquals,
    LessThan,
    GreaterThan,
    AtMost,
    AtLeast,
}

impl Clone for Comparator {
    fn clone(&self) -> (r: Self)
        ensures
            r == *self,
    {
        *self
    }
}

impl Comparator {
    pub open spec fn spec_is_equals(self) -> bool {
        self is Equals
    }

    /// Whether this is an equals sign in any spelling.
    #[verifier::when_used_as_spec(spec_is_equals)]
    pub fn is_equals(self) -> (r: bool)
        ensures
            r == (self is Equals),
    {
        match self {
            Comparator::Equals(_) => true,
            _ => false,
        }
    }

    pub open spec fn spec_is_single_equals(self) -> bool {
        self == Comparator::Equals(EqKind::Single)
    }

    /// Whether this is the plain `=`.
    #[verifier::when_used_as_spec(spec_is_single_equals)]
    pub fn is_single_equals(self) -> (r: bool)
        ensures
            r == (self == Comparator::Equals(EqKind::Single)),
    {
        match self {
            Comparator::Equals(EqKind::Single) => true,
            _ => false,
        }
    }

    /// The operator as it is written in a script.
    pub fn symbol(self) -> (r: &'static str)
        ensures
            r@ == self.spec_symbol(),
    {
        match self {
            Comparator::Equals(EqKind::Single) => "=",
            Comparator::Equals(EqKind::Double) => "==",
            Comparator::Equals(EqKind::Question) => "?=",
            Comparator::NotEquals => "!=",
            Comparator::LessThan => "<",
            Comparator::GreaterThan => ">",
            Comparator::AtMost => "<=",
            Comparator::AtLeast => ">=",
        }
    }

    pub open spec fn spec_symbol(self) -> Seq<char> {
        match self {
            Comparator::Equals(EqKind::Single) => "="@,
            Comparator::Equals(EqKind::Double) => "=="@,
            Comparator::Equals(EqKind::Question) => "?="@,
            Comparator::NotEquals => "!="@,
            Comparator::LessThan => "<"@,
            Comparator::GreaterThan => ">"@,
            Comparator::AtMost => "<="@,
            Comparator::AtLeast => ">="@,
        }
    }
}

/// A value: a single token or a nested block.
#[derive(Debug)]
pub enum BV {
    Value(Token),
    Block(Block),
}

/// One item of a block. A bare value has no key.
#[derive(Debug)]
pub struct BlockItem {
    pub key: Option<Token>,
    pub op: Comparator,
    pub value: BV,
}

/// A block of items. `params` names the macro parameters that the block's
/// text refers to as `$NAME$`; a block without any is not parameterized.
#[derive(Debug)]
pub struct Block {
    pub items: Vec<BlockItem>,
    pub loc: Loc,
    pub params: Vec<String>,
}

pub enum BVView {
    Value(TokenView),
    Block(BlockView),
}

pub struct ItemView {
    pub key: Option<TokenView>,
    pub op: Comparator,
    pub value: BVView,
}

pub struct BlockView {
    pub items: Seq<ItemView>,
    pub loc: Loc,
    pub params: Seq<Seq<char>>,
}

pub open spec fn opt_token_view(t: Option<Token>) -> Option<TokenView> {
    match t {
        Some(t) => Some(t@),
        None => None,
    }
}

pub open spec fn strings_view(s: Seq<String>) -> Seq<Seq<char>> {
    Seq::new(s.len(), |i: int| s[i]@)
}

pub open spec fn tokens_view(s: Seq<Token>) -> Seq<TokenView> {
    Seq::new(s.len(), |i: int| s[i]@)
}

/// The views of macro arguments: each a parameter's name and the token bound to it.
pub open spec fn args_view(args: Seq<(String, Token)>) -> Seq<(Seq<char>, TokenView)> {
    Seq::new(args.len(), |i: int| (args[i].0@, args[i].1@))
}

pub open spec fn block_view(b: Block) -> BlockView
    decreases b,
{
    BlockView {
        items: items_view(b.items@, b.items@.len()),
        loc: b.loc,
        params: strings_view(b.params@),
    }
}

/// The views of the first `n` items of `s`.
pub open spec fn items_view(s: Seq<BlockItem>, n: nat) -> Seq<ItemView>
    decreases s, n,
{
    if n == 0 || n > s.len() {
        Seq::empty()
    } else {
        items_view(s, (n - 1) as nat).push(item_view(s[n - 1]))
    }
}

pub open spec fn item_view(it: BlockItem) -> ItemView
    decreases it,
{
    ItemView { key: opt_token_view(it.key), op: it.op, value: bv_view(it.value) }
}

pub open spec fn bv_view(v: BV) -> BVView
    decreases v,
{
    match v {
        BV::Value(t) => BVView::Value(t@),
        BV::Block(b) => BVView::Block(block_view(b)),
    }
}

impl View for BV {
    type V = BVView;

    open spec fn view(&self) -> BVView {
        bv_view(*self)
    }
}

impl View for BlockItem {
    type V = ItemView;

    open spec fn view(&self) -> ItemView {
        item_view(*self)
    }
}

impl View for Block {
    type V = BlockView;

    open spec fn view(&self) -> BlockView {
        block_view(*self)
    }
}

pub proof fn lemma_items_view(s: Seq<BlockItem>, n: nat)
    requires
        n <= s.len(),
    ensures
        items_view(s, n).len() == n,
        forall|i: int| 0 <= i < n ==> #[trigger] items_view(s, n)[i] == item_view(s[i]),
    decreases n,
{
    if n > 0 {
        lemma_items_view(s, (n - 1) as nat);
    }
}

/// A block's view holds the views of its items, one for one.
pub broadcast proof fn lemma_block_view(b: Block)
    ensures
        #![trigger block_view(b)]
        block_view(b).items.len() == b.items@.len(),
        forall|i: int|
            0 <= i < b.items@.len() ==> #[trigger] block_view(b).items[i] == item_view(
                b.items@[i],
            ),
        block_view(b).loc == b.loc,
        block_view(b).params == strings_view(b.params@),
{
    lemma_items_view(b.items@, b.items@.len());
}

impl BVView {
    pub open spec fn loc(self) -> Loc {
        match self {
            BVView::Value(t) => t.loc,
            BVView::Block(b) => b.loc,
        }
    }
}

impl BlockView {
    /// The index of the last of the first `n` items whose key is `name`.
    pub open spec fn find_last(self, name: Seq<char>, n: int) -> Option<int>
        decreases n,
    {
        if n <= 0 || n > self.items.len() {
            None
        } else if self.items[n - 1].key is Some && self.items[n - 1].key->0.s == name {
            Some(n - 1)
        } else {
            self.find_last(name, n - 1)
        }
    }

    /// The value of the last item whose key is `name`.
    pub open spec fn get_field(self, name: Seq<char>) -> Option<BVView> {
        match self.find_last(name, self.items.len() as int) {
            Some(i) => Some(self.items[i].value),
            None => None,
        }
    }

    pub open spec fn get_field_value(self, name: Seq<char>) -> Option<TokenView> {
        match self.get_field(name) {
            Some(BVView::Value(t)) => Some(t),
            _ => None,
        }
    }

    pub open spec fn get_field_block(self, name: Seq<char>) -> Option<BlockView> {
        match self.get_field(name) {
            Some(BVView::Block(b)) => Some(b),
            _ => None,
        }
    }

    pub open spec fn get_field_bool(self, name: Seq<char>) -> Option<bool> {
        match self.get_field_value(name) {
            Some(t) => if t.s == "yes"@ {
                Some(true)
            } else if t.s == "no"@ {
                Some(false)
            } else {
                None
            },
            None => None,
        }
    }

    pub open spec fn has_key(self, name: Seq<char>) -> bool {
        self.find_last(name, self.items.len() as int) is Some
    }

    /// The single values of the items whose key is `name`, in order.
    pub open spec fn get_field_values(self, name: Seq<char>) -> Seq<TokenView> {
        values_of(self.items, name, self.items.len())
    }

    /// Whether the block is written with macro parameters.
    pub open spec fn is_parameterized(self) -> bool {
        self.params.len() > 0
    }
}

/// The single values of those of the first `n` items whose key is `name`.
pub open spec fn values_of(items: Seq<ItemView>, name: Seq<char>, n: nat) -> Seq<TokenView>
    decreases n,
{
    if n == 0 || n > items.len() {
        Seq::empty()
    } else if items[n - 1].key is Some && items[n - 1].key->0.s == name {
        match items[n - 1].value {
            BVView::Value(t) => values_of(items, name, (n - 1) as nat).push(t),
            BVView::Block(_) => values_of(items, name, (n - 1) as nat),
        }
    } else {
        values_of(items, name, (n - 1) as nat)
    }
}

/// The blocks among the values of those of the first `n` items whose key is `name`.
pub open spec fn blocks_of(items: Seq<ItemView>, name: Seq<char>, n: nat) -> Seq<BlockView>
    decreases n,
{
    if n == 0 || n > items.len() {
        Seq::empty()
    } else if items[n - 1].key is Some && items[n - 1].key->0.s == name {
        match items[n - 1].value {
            BVView::Block(b) => blocks_of(items, name, (n - 1) as nat).push(b),
            BVView::Value(_) => blocks_of(items, name, (n - 1) as nat),
        }
    } else {
        blocks_of(items, name, (n - 1) as nat)
    }
}

pub open spec fn block_refs_view(s: Seq<&Block>) -> Seq<BlockView> {
    Seq::new(s.len(), |i: int| s[i]@)
}

pub open spec fn token_refs_view(s: Seq<&Token>) -> Seq<TokenView> {
    Seq::new(s.len(), |i: int| s[i]@)
}

impl BV {
    pub fn is_block(&self) -> (r: bool)
        ensures
            r == (self@ is Block),
    {
        match self {
            BV::Block(_) => true,
            BV::Value(_) => false,
        }
    }

    pub fn get_block(&self) -> (r: Option<&Block>)
        ensures
            match r {
                Some(b) => self@ == BVView::Block(b@),
                None => self@ is Value,
            },
    {
        match self {
            BV::Block(b) => Some(b),
            BV::Value(_) => None,
        }
    }

    pub fn get_value(&self) -> (r: Option<&Token>)
        ensures
            match r {
                Some(t) => self@ == BVView::Value(t@),
                None => self@ is Block,
            },
    {
        match self {
            BV::Block(_) => None,
            BV::Value(t) => Some(t),
        }
    }

    /// Where the value stands: the token's place, or the block's.
    pub fn loc(&self) -> (r: Loc)
        ensures
            r == self@.loc(),
    {
        proof {
            broadcast use lemma_block_view;

        }
        match self {
            BV::Block(b) => b.loc,
            BV::Value(t) => t.loc,
        }
    }
}

impl Block {
    pub fn new(loc: Loc) -> (r: Block)
        ensures
            r@ == (BlockView { items: Seq::empty(), loc, params: Seq::empty() }),
    {
        let r = Block { items: Vec::new(), loc, params: Vec::new() };
        proof {
            broadcast use lemma_block_view;

            assert(r@.items =~= Seq::empty());
            assert(r@.params =~= Seq::empty());
        }
        r
    }

    /// Appends one item.
    pub fn add_item(&mut self, key: Option<Token>, op: Comparator, value: BV)
        ensures
            final(self)@.items == old(self)@.items.push(
                ItemView { key: opt_token_view(key), op, value: value@ },
            ),
            final(self)@.loc == old(self)@.loc,
            final(self)@.params == old(self)@.params,
    {
        proof {
            lemma_block_view(*self);
        }
        let ghost before = *self;
        self.items.push(BlockItem { key, op, value });
        proof {
            lemma_block_view(*self);
            assert(self@.items =~= before@.items.push(
                ItemView { key: opt_token_view(key), op, value: value@ },
            ));
        }
    }

    /// Appends `key = value`.
    pub fn add_assignment(&mut self, key: Token, value: Token)
        ensures
            final(self)@.items == old(self)@.items.push(
                ItemView {
                    key: Some(key@),
                    op: Comparator::Equals(EqKind::Single),
                    value: BVView::Value(value@),
                },
            ),
            final(self)@.loc == old(self)@.loc,
            final(self)@.params == old(self)@.params,
    {
        self.add_item(Some(key), Comparator::Equals(EqKind::Single), BV::Value(value));
    }

    /// Appends `key = { block }`.
    pub fn add_definition(&mut self, key: Token, block: Block)
        ensures
            final(self)@.items == old(self)@.items.push(
                ItemView {
                    key: Some(key@),
                    op: Comparator::Equals(EqKind::Single),
                    value: BVView::Block(block@),
                },
            ),
            final(self)@.loc == old(self)@.loc,
            final(self)@.params == old(self)@.params,
    {
        self.add_item(Some(key), Comparator::Equals(EqKind::Single), BV::Block(block));
    }

    /// Appends a bare value.
    pub fn add_value(&mut self, value: Token)
        ensures
            final(self)@.items == old(self)@.items.push(
                ItemView {
                    key: None,
                    op: Comparator::Equals(EqKind::Single),
                    value: BVView::Value(value@),
                },
            ),
            final(self)@.loc == old(self)@.loc,
            final(self)@.params == old(self)@.params,
    {
        self.add_item(None, Comparator::Equals(EqKind::Single), BV::Value(value));
    }

    /// Declares a macro parameter of the block.
    pub fn add_param(&mut self, name: &str)
        ensures
            final(self)@.items == old(self)@.items,
            final(self)@.loc == old(self)@.loc,
            final(self)@.params == old(self)@.params.push(name@),
    {
        proof {
            lemma_block_view(*self);
        }
        let ghost before = *self;
        self.params.push(String::from_str(name));
        proof {
            lemma_block_view(*self);
            assert(self@.params =~= before@.params.push(name@));
            assert(self@.items =~= before@.items);
        }
    }

    pub fn len(&self) -> (r: usize)
        ensures
            r == self@.items.len(),
    {
        proof {
            lemma_block_view(*self);
        }
        self.items.len()
    }

    pub fn item(&self, i: usize) -> (r: &BlockItem)
        requires
            i < self@.items.len(),
        ensures
            r@ == self@.items[i as int],
    {
        proof {
            lemma_block_view(*self);
        }
        &self.items[i]
    }

    /// The value of the last item with this key, if there is one.
    pub fn get_field(&self, name: &str) -> (r: Option<&BV>)
        ensures
            match r {
                Some(v) => self@.get_field(name@) == Some(v@),
                None => self@.get_field(name@) is None,
            },
    {
        proof {
            lemma_block_view(*self);
        }
        let mut i: usize = self.items.len();
        while i > 0
            invariant
                i <= self.items@.len(),
                self@.items.len() == self.items@.len(),
                forall|j: int|
                    0 <= j < self.items@.len() ==> #[trigger] self@.items[j] == item_view(
                        self.items@[j],
                    ),
                self@.find_last(name@, self@.items.len() as int) == self@.find_last(
                    name@,
                    i as int,
                ),
            decreases i,
        {
            let it = &self.items[i - 1];
            assert(self@.items[i - 1] == item_view(*it));
            let hit = match &it.key {
                Some(k) => k.is(name),
                None => false,
            };
            if hit {
                return Some(&it.value);
            }
            i = i - 1;
        }
        None
    }

    pub fn get_field_value(&self, name: &str) -> (r: Option<&Token>)
        ensures
            match r {
                Some(t) => self@.get_field_value(name@) == Some(t@),
                None => self@.get_field_value(name@) is None,
            },
    {
        match self.get_field(name) {
            Some(BV::Value(t)) => Some(t),
            _ => None,
        }
    }

    pub fn get_field_block(&self, name: &str) -> (r: Option<&Block>)
        ensures
            match r {
                Some(b) => self@.get_field_block(name@) == Some(b@),
                None => self@.get_field_block(name@) is None,
            },
    {
        match self.get_field(name) {
            Some(BV::Block(b)) => Some(b),
            _ => None,
        }
    }

    /// The field read as `yes` or `no`; anything else is no boolean.
    pub fn get_field_bool(&self, name: &str) -> (r: Option<bool>)
        ensures
            r == self@.get_field_bool(name@),
    {
        match self.get_field_value(name) {
            Some(t) => {
                if t.is("yes") {
                    Some(true)
                } else if t.is("no") {
                    Some(false)
                } else {
                    None
                }
            },
            None => None,
        }
    }

    pub fn has_key(&self, name: &str) -> (r: bool)
        ensures
            r == self@.has_key(name@),
    {
        self.get_field(name).is_some()
    }

    /// The blocks of the items whose key is `name`, in order.
    pub fn get_field_blocks(&self, name: &str) -> (r: Vec<&Block>)
        ensures
            block_refs_view(r@) == blocks_of(self@.items, name@, self@.items.len()),
    {
        proof {
            lemma_block_view(*self);
        }
        let ghost items = self@.items;
        let mut out: Vec<&Block> = Vec::new();
        let mut i: usize = 0;
        assert(block_refs_view(out@) =~= Seq::empty());
        while i < self.items.len()
            invariant
                i <= self.items@.len(),
                items == self@.items,
                items.len() == self.items@.len(),
                forall|j: int|
                    0 <= j < self.items@.len() ==> #[trigger] items[j] == item_view(
                        self.items@[j],
                    ),
                block_refs_view(out@) == blocks_of(items, name@, i as nat),
            decreases self.items@.len() - i,
        {
            let ghost got = block_refs_view(out@);
            let it = &self.items[i];
            let hit = match &it.key {
                Some(k) => k.is(name),
                None => false,
            };
            if hit {
                match &it.value {
                    BV::Block(b) => {
                        out.push(b);
                        assert(block_refs_view(out@) =~= got.push(b@));
                    },
                    BV::Value(_) => {},
                }
            }
            i = i + 1;
        }
        out
    }

    /// The single values of the items whose key is `name`, in order.
    pub fn get_field_values(&self, name: &str) -> (r: Vec<&Token>)
        ensures
            token_refs_view(r@) == self@.get_field_values(name@),
    {
        proof {
            lemma_block_view(*self);
        }
        let ghost items = self@.items;
        let mut out: Vec<&Token> = Vec::new();
        let mut i: usize = 0;
        assert(token_refs_view(out@) =~= Seq::empty());
        while i < self.items.len()
            invariant
                i <= self.items@.len(),
                items == self@.items,
                items.len() == self.items@.len(),
                forall|j: int|
                    0 <= j < self.items@.len() ==> #[trigger] items[j] == item_view(
                        self.items@[j],
                    ),
                token_refs_view(out@) == values_of(items, name@, i as nat),
            decreases self.items@.len() - i,
        {
            let ghost got = token_refs_view(out@);
            let it = &self.items[i];
            let hit = match &it.key {
                Some(k) => k.is(name),
                None => false,
            };
            if hit {
                match &it.value {
                    BV::Value(t) => {
                        out.push(t);
                        assert(token_refs_view(out@) =~= got.push(t@));
                    },
                    BV::Block(_) => {},
                }
            }
            i = i + 1;
        }
        out
    }

    /// The names of the block's macro parameters.
    pub fn macro_parms(&self) -> (r: Vec<&str>)
        ensures
            r@.len() == self@.params.len(),
            forall|i: int| 0 <= i < r@.len() ==> (#[trigger] r@[i])@ == self@.params[i],
    {
        proof {
            lemma_block_view(*self);
        }
        let mut out: Vec<&str> = Vec::new();
        let mut i: usize = 0;
        while i < self.params.len()
            invariant
                i <= self.params@.len(),
                out@.len() == i,
                forall|j: int| 0 <= j < i ==> (#[trigger] out@[j])@ == self.params@[j]@,
            decreases self.params@.len() - i,
        {
            out.push(self.params[i].as_str());
            i = i + 1;
        }
        out
    }
}

/// The number of items and blocks in a block, itself and nested ones included.
pub open spec fn block_size(b: BlockView) -> nat
    decreases b,
{
    1 + items_size(b.items, b.items.len())
}

pub open spec fn items_size(items: Seq<ItemView>, n: nat) -> nat
    decreases items, n,
{
    if n == 0 || n > items.len() {
        0
    } else {
        items_size(items, (n - 1) as nat) + item_size(items[n - 1])
    }
}

pub open spec fn item_size(it: ItemView) -> nat
    decreases it,
{
    1 + match it.value {
        BVView::Value(_) => 0,
        BVView::Block(b) => block_size(b),
    }
}

/// The size of a value: nothing for a token, the block's size for a block.
pub open spec fn bv_size(v: BVView) -> nat {
    match v {
        BVView::Value(_) => 0,
        BVView::Block(b) => block_size(b),
    }
}

/// Each of the first `n` items is no larger than the first `n` items together.
pub proof fn lemma_items_size(items: Seq<ItemView>, n: nat, i: int)
    requires
        0 <= i < n <= items.len(),
    ensures
        item_size(items[i]) <= items_size(items, n),
        items_size(items, n) < block_size(BlockView { items, loc: arbitrary(), params: arbitrary() })
            || n < items.len(),
    decreases n,
{
    if i < n - 1 {
        lemma_items_size(items, (n - 1) as nat, i);
    }
}

/// A nested block is smaller than the block that holds it.
pub proof fn lemma_nested_size(b: BlockView, i: int)
    requires
        0 <= i < b.items.len(),
    ensures
        item_size(b.items[i]) < block_size(b),
        b.items[i].value is Block ==> block_size(b.items[i].value->Block_0) < block_size(b),
{
    lemma_items_size(b.items, b.items.len(), i);
}

/// How a reference to the macro parameter `name` is written.
pub open spec fn param_ref(name: Seq<char>) -> Seq<char> {
    "$"@ + name + "$"@
}

/// The first argument at or behind `from` whose parameter `s` refers to.
pub open spec fn find_arg(args: Seq<(Seq<char>, TokenView)>, s: Seq<char>, from: int) -> Option<
    int,
>
    decreases args.len() - from,
{
    if from < 0 || from >= args.len() {
        None
    } else if param_ref(args[from].0) == s {
        Some(from)
    } else {
        find_arg(args, s, from + 1)
    }
}

/// A token that refers to a parameter becomes the argument bound to it;
/// any other token stays.
pub open spec fn subst_token(t: TokenView, args: Seq<(Seq<char>, TokenView)>) -> TokenView {
    match find_arg(args, t.s, 0) {
        Some(i) => args[i].1,
        None => t,
    }
}

/// The block with the arguments put in place of the references to their
/// parameters, in keys and values and in nested blocks. The result is not
/// parameterized.
pub open spec fn expand_block(b: BlockView, args: Seq<(Seq<char>, TokenView)>) -> BlockView
    decreases b,
{
    BlockView {
        items: expand_items(b.items, b.items.len(), args),
        loc: b.loc,
        params: Seq::empty(),
    }
}

pub open spec fn expand_items(
    items: Seq<ItemView>,
    n: nat,
    args: Seq<(Seq<char>, TokenView)>,
) -> Seq<ItemView>
    decreases items, n,
{
    if n == 0 || n > items.len() {
        Seq::empty()
    } else {
        expand_items(items, (n - 1) as nat, args).push(expand_item(items[n - 1], args))
    }
}

pub open spec fn expand_item(it: ItemView, args: Seq<(Seq<char>, TokenView)>) -> ItemView
    decreases it,
{
    ItemView {
        key: match it.key {
            Some(k) => Some(subst_token(k, args)),
            None => None,
        },
        op: it.op,
        value: match it.value {
            BVView::Value(t) => BVView::Value(subst_token(t, args)),
            BVView::Block(b) => BVView::Block(expand_block(b, args)),
        },
    }
}

pub proof fn lemma_expand_items(items: Seq<ItemView>, n: nat, args: Seq<(Seq<char>, TokenView)>)
    requires
        n <= items.len(),
    ensures
        expand_items(items, n, args).len() == n,
        forall|i: int|
            0 <= i < n ==> #[trigger] expand_items(items, n, args)[i] == expand_item(
                items[i],
                args,
            ),
    decreases n,
{
    if n > 0 {
        lemma_expand_items(items, (n - 1) as nat, args);
    }
}

fn substitute(t: &Token, args: &Vec<(String, Token)>) -> (r: Token)
    ensures
        r@ == subst_token(t@, args_view(args@)),
{
    let mut i: usize = 0;
    while i < args.len()
        invariant
            i <= args@.len(),
            find_arg(args_view(args@), t@.s, 0) == find_arg(args_view(args@), t@.s, i as int),
        decreases args@.len() - i,
    {
        let wanted = concat3("$", args[i].0.as_str(), "$");
        assert(args_view(args@)[i as int].0 == args@[i as int].0@);
        if str_eq(wanted.as_str(), t.s.as_str()) {
            assert(args_view(args@)[i as int].1 == args@[i as int].1@);
            return args[i].1.clone();
        }
        i = i + 1;
    }
    t.clone()
}

impl BlockItem {
    fn expand(&self, args: &Vec<(String, Token)>) -> (r: BlockItem)
        ensures
            r@ == expand_item(self@, args_view(args@)),
        decreases item_size(self@), 0nat,
    {
        let key = match &self.key {
            Some(k) => Some(substitute(k, args)),
            None => None,
        };
        let value = match &self.value {
            BV::Value(t) => BV::Value(substitute(t, args)),
            BV::Block(b) => BV::Block(b.expand(args)),
        };
        BlockItem { key, op: self.op, value }
    }
}

impl Block {
    /// The block with `args` put in place of the references to their parameters.
    pub fn expand(&self, args: &Vec<(String, Token)>) -> (r: Block)
        ensures
            r@ == expand_block(self@, args_view(args@)),
        decreases block_size(self@), 0nat,
    {
        proof {
            lemma_block_view(*self);
        }
        let mut items: Vec<BlockItem> = Vec::new();
        let mut i: usize = 0;
        while i < self.items.len()
            invariant
                i <= self.items@.len(),
                items@.len() == i,
                self@.items.len() == self.items@.len(),
                forall|j: int|
                    0 <= j < self.items@.len() ==> #[trigger] self@.items[j] == item_view(
                        self.items@[j],
                    ),
                forall|j: int|
                    0 <= j < i ==> item_view(#[trigger] items@[j]) == expand_item(
                        self@.items[j],
                        args_view(args@),
                    ),
            decreases self.items@.len() - i,
        {
            proof {
                lemma_nested_size(self@, i as int);
            }
            let it = self.items[i].expand(args);
            items.push(it);
            i = i + 1;
        }
        let r = Block { items, loc: self.loc, params: Vec::new() };
        proof {
            lemma_block_view(r);
            lemma_expand_items(self@.items, self@.items.len(), args_view(args@));
            assert(r@.items =~= expand_items(self@.items, self@.items.len(), args_view(args@)));
            assert(r@.params =~= Seq::empty());
        }
        r
    }

    /// The block that a call with `args` stands for, if the block is
    /// parameterized; a block that is not has no expansion.
    pub fn expand_macro(&self, args: &Vec<(String, Token)>, call_site: &Token) -> (r: Option<
        Block,
    >)
        ensures
            r is Some <==> self@.is_parameterized(),
            r is Some ==> r->0@ == expand_block(self@, args_view(args@)),
    {
        proof {
            lemma_block_view(*self);
        }
        if self.params.len() == 0 {
            None
        } else {
            Some(self.expand(args))
        }
    }

    /// A copy of the block.
    pub fn duplicate(&self) -> (r: Block)
        ensures
            r@ == self@,
        decreases block_size(self@), 0nat,
    {
        proof {
            lemma_block_view(*self);
        }
        let mut items: Vec<BlockItem> = Vec::new();
        let mut i: usize = 0;
        while i < self.items.len()
            invariant
                i <= self.items@.len(),
                items@.len() == i,
                self@.items.len() == self.items@.len(),
                forall|j: int|
                    0 <= j < self.items@.len() ==> #[trigger] self@.items[j] == item_view(
                        self.items@[j],
                    ),
                forall|j: int| 0 <= j < i ==> item_view(#[trigger] items@[j]) == self@.items[j],
            decreases self.items@.len() - i,
        {
            proof {
                lemma_nested_size(self@, i as int);
            }
            let src = &self.items[i];
            let key = match &src.key {
                Some(k) => Some(k.clone()),
                None => None,
            };
            let value = match &src.value {
                BV::Value(t) => BV::Value(t.clone()),
                BV::Block(b) => BV::Block(b.duplicate()),
            };
            items.push(BlockItem { key, op: src.op, value });
            i = i + 1;
        }
        let mut params: Vec<String> = Vec::new();
        let mut k: usize = 0;
        while k < self.params.len()
            invariant
                k <= self.params@.len(),
                params@.len() == k,
                forall|j: int| 0 <= j < k ==> #[trigger] params@[j] == self.params@[j],
            decreases self.params@.len() - k,
        {
            params.push(self.params[k].clone());
            k = k + 1;
        }
        let r = Block { items, loc: self.loc, params };
        proof {
            lemma_block_view(r);
            assert(r@.items =~= self@.items);
            assert(r@.params =~= self@.params);
        }
        r
    }
}

} // verus!
