//! The command tree a server sends, and what the client makes of a command before it sends one.
use vstd::prelude::*;

use crate::words::{same, split, split_by, texts};

verus! {

/// The most tokens one argument is tried against. A position or a rotation is several words; a
/// longer run is not one argument any command a dialog runs takes.
pub const WIDEST_ARGUMENT: usize = 4;

/// How an argument reads its words, as far as a check needs to know.
#[derive(Clone, Copy, PartialEq, Eq, Structural)]
pub enum Parser {
    /// The rest of the line, which the player would sign.
    Message,
    /// The rest of the line.
    Greedy,
    Other,
}

pub enum NodeKind {
    Root,
    Literal(String),
    Argument(Parser),
}

pub struct Node {
    pub executable: bool,
    pub children: Vec<u32>,
    pub redirect: Option<u32>,
    pub kind: NodeKind,
    pub restricted: bool,
}

pub struct Commands {
    pub entries: Vec<Node>,
    pub root_index: u32,
}

/// What the client makes of a command before it sends one.
#[derive(Clone, Copy, Debug, PartialEq, Eq, Structural)]
pub enum Check {
    NoIssues,
    /// Unknown to the tree, or not a whole command: the client asks, and yes sends it anyway.
    ParseErrors,
    /// A node the tree marks restricted: the client asks, and yes sends it.
    PermissionsRequired,
    /// An argument the player would sign, which the client will only send from the chat screen.
    SignatureRequired,
}

/// Whether a tree has a node of a number.
pub open spec fn known(tree: Commands, at: int) -> bool {
    0 <= at < tree.entries@.len()
}

/// The nodes a node's next word can be, by a redirect where it has one.
pub open spec fn children_of(tree: Commands, at: int) -> Option<Seq<u32>> {
    match tree.entries@[at].redirect {
        Some(target) => if known(tree, target as int) {
            Some(tree.entries@[target as int].children@)
        } else {
            None
        },
        None => Some(tree.entries@[at].children@),
    }
}

pub open spec fn is_literal(node: Node, word: Seq<char>) -> bool {
    node.kind matches NodeKind::Literal(name) && name@ == word
}

/// Where words lead from a node: whether the command they make is one the player would sign, and
/// whether it is restricted; nothing where they make none. Literals come before arguments, a greedy
/// argument takes the rest, a redirect carries on from where it points.
pub open spec fn walk_of(
    tree: Commands,
    at: int,
    words: Seq<Seq<char>>,
    signed: bool,
    restricted: bool,
) -> Option<(bool, bool)>
    decreases words.len(), 3int, 0int,
{
    if !known(tree, at) {
        None
    } else if words.len() == 0 {
        if tree.entries@[at].executable {
            Some((signed, restricted))
        } else {
            None
        }
    } else {
        match children_of(tree, at) {
            Some(children) => match literals_of(tree, children, 0, words, signed, restricted) {
                Some(found) => found,
                None => match arguments_of(tree, children, 0, words, signed, restricted) {
                    Some(found) => found,
                    None => None,
                },
            },
            None => None,
        }
    }
}

/// Where words lead by the first child, from the `i`th on, that is the next word; nothing to say
/// where none does. A child the tree does not have ends the search.
pub open spec fn literals_of(
    tree: Commands,
    children: Seq<u32>,
    i: int,
    words: Seq<Seq<char>>,
    signed: bool,
    restricted: bool,
) -> Option<Option<(bool, bool)>>
    decreases words.len(), 2int, children.len() - i,
{
    if i < 0 || i >= children.len() || words.len() == 0 {
        None
    } else if !known(tree, children[i] as int) {
        Some(None)
    } else {
        let next = tree.entries@[children[i] as int];
        let found = if is_literal(next, words[0]) {
            walk_of(
                tree,
                children[i] as int,
                words.skip(1),
                signed,
                restricted || next.restricted,
            )
        } else {
            None
        };
        if found is Some {
            Some(found)
        } else {
            literals_of(tree, children, i + 1, words, signed, restricted)
        }
    }
}

/// Where words lead by the first child, from the `i`th on, that is an argument they fit.
pub open spec fn arguments_of(
    tree: Commands,
    children: Seq<u32>,
    i: int,
    words: Seq<Seq<char>>,
    signed: bool,
    restricted: bool,
) -> Option<Option<(bool, bool)>>
    decreases words.len(), 1int, children.len() - i,
{
    if i < 0 || i >= children.len() || words.len() == 0 {
        None
    } else if !known(tree, children[i] as int) {
        Some(None)
    } else {
        let next = tree.entries@[children[i] as int];
        let limited = restricted || next.restricted;
        match next.kind {
            NodeKind::Argument(Parser::Other) => match widths_of(
                tree,
                children[i] as int,
                words,
                1,
                signed,
                limited,
            ) {
                Some(found) => Some(Some(found)),
                None => arguments_of(tree, children, i + 1, words, signed, restricted),
            },
            NodeKind::Argument(parser) => if next.executable {
                Some(Some((signed || parser == Parser::Message, limited)))
            } else {
                arguments_of(tree, children, i + 1, words, signed, restricted)
            },
            _ => arguments_of(tree, children, i + 1, words, signed, restricted),
        }
    }
}

/// Where words lead once an argument took `taken` of them or more.
pub open spec fn widths_of(
    tree: Commands,
    at: int,
    words: Seq<Seq<char>>,
    taken: int,
    signed: bool,
    restricted: bool,
) -> Option<(bool, bool)>
    decreases words.len(), 0int, WIDEST_ARGUMENT + 1 - taken,
{
    if taken < 1 || taken > words.len() || taken > WIDEST_ARGUMENT {
        None
    } else {
        match walk_of(tree, at, words.skip(taken), signed, restricted) {
            Some(found) => Some(found),
            None => widths_of(tree, at, words, taken + 1, signed, restricted),
        }
    }
}

fn literals(
    tree: &Commands,
    children: &Vec<u32>,
    words: &Vec<String>,
    from: usize,
    signed: bool,
    restricted: bool,
) -> (r: Option<Option<(bool, bool)>>)
    requires
        from < words@.len(),
    ensures
        r == literals_of(
            *tree,
            children@,
            0,
            texts(words@).skip(from as int),
            signed,
            restricted,
        ),
    decreases words@.len() - from, 1int,
{
    let ghost rest = texts(words@).skip(from as int);
    let count: usize = words.len();
    let mut i: usize = 0;
    while i < children.len()
        invariant
            i <= children@.len(),
            from < count == words@.len(),
            rest == texts(words@).skip(from as int),
            literals_of(*tree, children@, 0, rest, signed, restricted) == literals_of(
                *tree,
                children@,
                i as int,
                rest,
                signed,
                restricted,
            ),
        decreases children@.len() - i,
    {
        let child: usize = children[i] as usize;
        if child >= tree.entries.len() {
            return Some(None);
        }
        let next = &tree.entries[child];
        proof {
            assert(rest[0] == words@[from as int]@);
            assert(rest.skip(1) =~= texts(words@).skip(from as int + 1));
        }
        let fits: bool = match &next.kind {
            NodeKind::Literal(name) => same(name.as_str(), words[from].as_str()),
            _ => false,
        };
        if fits {
            let found = walk(tree, child, words, from + 1, signed, restricted || next.restricted);
            if found.is_some() {
                return Some(found);
            }
        }
        i += 1;
    }
    None
}

fn arguments(
    tree: &Commands,
    children: &Vec<u32>,
    words: &Vec<String>,
    from: usize,
    signed: bool,
    restricted: bool,
) -> (r: Option<Option<(bool, bool)>>)
    requires
        from < words@.len(),
    ensures
        r == arguments_of(
            *tree,
            children@,
            0,
            texts(words@).skip(from as int),
            signed,
            restricted,
        ),
    decreases words@.len() - from, 1int,
{
    let ghost rest = texts(words@).skip(from as int);
    let mut i: usize = 0;
    while i < children.len()
        invariant
            i <= children@.len(),
            from < words@.len(),
            rest == texts(words@).skip(from as int),
            arguments_of(*tree, children@, 0, rest, signed, restricted) == arguments_of(
                *tree,
                children@,
                i as int,
                rest,
                signed,
                restricted,
            ),
        decreases children@.len() - i,
    {
        let child: usize = children[i] as usize;
        if child >= tree.entries.len() {
            return Some(None);
        }
        let next = &tree.entries[child];
        let limited: bool = restricted || next.restricted;
        match &next.kind {
            NodeKind::Argument(parser) => {
                if *parser == Parser::Other {
                    let mut taken: usize = 1;
                    while taken <= words.len() - from && taken <= WIDEST_ARGUMENT
                        invariant
                            1 <= taken <= WIDEST_ARGUMENT + 1,
                            from < words@.len(),
                            rest == texts(words@).skip(from as int),
                            widths_of(*tree, child as int, rest, 1, signed, limited) == widths_of(
                                *tree,
                                child as int,
                                rest,
                                taken as int,
                                signed,
                                limited,
                            ),
                            arguments_of(*tree, children@, 0, rest, signed, restricted)
                                == arguments_of(
                                *tree,
                                children@,
                                i as int,
                                rest,
                                signed,
                                restricted,
                            ),
                            i < children@.len(),
                            child == children@[i as int],
                            child < tree.entries@.len(),
                            *next == tree.entries@[child as int],
                            next.kind == NodeKind::Argument(Parser::Other),
                            limited == (restricted || next.restricted),
                        decreases WIDEST_ARGUMENT + 1 - taken,
                    {
                        proof {
                            assert(rest.skip(taken as int) =~= texts(words@).skip(from + taken));
                        }
                        let found = walk(tree, child, words, from + taken, signed, limited);
                        if found.is_some() {
                            return Some(found);
                        }
                        taken += 1;
                    }
                } else if next.executable {
                    return Some(Some((signed || *parser == Parser::Message, limited)));
                }
            },
            _ => {},
        }
        i += 1;
    }
    None
}

/// Where the words from `from` on lead from a node.
pub fn walk(
    tree: &Commands,
    at: usize,
    words: &Vec<String>,
    from: usize,
    signed: bool,
    restricted: bool,
) -> (r: Option<(bool, bool)>)
    requires
        from <= words@.len(),
    ensures
        r == walk_of(*tree, at as int, texts(words@).skip(from as int), signed, restricted),
    decreases words@.len() - from, 2int,
{
    if at >= tree.entries.len() {
        return None;
    }
    let node = &tree.entries[at];
    if from == words.len() {
        if node.executable {
            return Some((signed, restricted));
        }
        return None;
    }
    let children: &Vec<u32> = match node.redirect {
        Some(target) => {
            if target as usize >= tree.entries.len() {
                return None;
            }
            &tree.entries[target as usize].children
        },
        None => &node.children,
    };
    match literals(tree, children, words, from, signed, restricted) {
        Some(found) => return found,
        None => {},
    }
    match arguments(tree, children, words, from, signed, restricted) {
        Some(found) => found,
        None => None,
    }
}

/// The pieces of a list that are not empty.
pub open spec fn filled(pieces: Seq<Seq<char>>) -> Seq<Seq<char>>
    decreases pieces.len(),
{
    if pieces.len() == 0 {
        pieces
    } else if pieces.last().len() == 0 {
        filled(pieces.drop_last())
    } else {
        filled(pieces.drop_last()).push(pieces.last())
    }
}

/// The words of a command.
pub open spec fn words_of(command: Seq<char>) -> Seq<Seq<char>> {
    filled(split_by(command, ' '))
}

fn words(command: &str) -> (r: Vec<String>)
    ensures
        texts(r@) == words_of(command@),
{
    let pieces = split(command, ' ');
    let ghost all = texts(pieces@);
    let mut out: Vec<String> = Vec::new();
    let mut i: usize = 0;
    proof {
        assert(texts(out@) =~= filled(all.take(0)));
    }
    while i < pieces.len()
        invariant
            i <= pieces@.len(),
            all == texts(pieces@),
            texts(out@) == filled(all.take(i as int)),
        decreases pieces@.len() - i,
    {
        let ghost before = out@;
        proof {
            assert(all.take(i as int + 1).drop_last() =~= all.take(i as int));
            reveal_strlit("");
        }
        if !same(pieces[i].as_str(), "") {
            proof {
                if pieces@[i as int]@.len() == 0 {
                    assert(pieces@[i as int]@ =~= ""@);
                }
            }
            out.push(pieces[i].clone());
            proof {
                assert(texts(out@) =~= texts(before).push(pieces@[i as int]@));
            }
        }
        i += 1;
    }
    proof {
        assert(all.take(all.len() as int) =~= all);
    }
    out
}

/// What the client makes of a command, against the tree it was sent.
pub open spec fn check_of(tree: Option<Commands>, command: Seq<char>) -> Check {
    match tree {
        Some(tree) => match walk_of(
            tree,
            tree.root_index as int,
            words_of(command),
            false,
            false,
        ) {
            None => Check::ParseErrors,
            Some((true, _)) => Check::SignatureRequired,
            Some((false, true)) => Check::PermissionsRequired,
            Some((false, false)) => Check::NoIssues,
        },
        None => Check::ParseErrors,
    }
}

/// A command parsed against the command tree the server sent, the way the client walks it: literals
/// before arguments, a greedy argument taking the rest, a redirect carrying on from where it points.
pub fn verify(tree: &Option<Commands>, command: &str) -> (r: Check)
    ensures
        r == check_of(*tree, command@),
{
    match tree {
        Some(tree) => {
            let list = words(command);
            proof {
                assert(texts(list@).skip(0) =~= texts(list@));
            }
            match walk(tree, tree.root_index as usize, &list, 0, false, false) {
                None => Check::ParseErrors,
                Some((signed, restricted)) => if signed {
                    Check::SignatureRequired
                } else if restricted {
                    Check::PermissionsRequired
                } else {
                    Check::NoIssues
                },
            }
        },
        None => Check::ParseErrors,
    }
}

/// Whether no node of a tree is restricted.
pub open spec fn open_to_all(tree: Commands) -> bool {
    forall|i: int| 0 <= i < tree.entries@.len() ==> !(#[trigger] tree.entries@[i]).restricted
}

/// In a tree that restricts nothing no command needs a permission.
pub proof fn an_open_tree_asks_for_no_permission(tree: Commands, command: Seq<char>)
    requires
        open_to_all(tree),
    ensures
        check_of(Some(tree), command) != Check::PermissionsRequired,
{
    walks_open(tree, tree.root_index as int, words_of(command), false);
}

proof fn walks_open(tree: Commands, at: int, words: Seq<Seq<char>>, signed: bool)
    requires
        open_to_all(tree),
    ensures
        walk_of(tree, at, words, signed, false) matches Some(found) ==> !found.1,
    decreases words.len(), 3int, 0int,
{
    if known(tree, at) && words.len() > 0 {
        match children_of(tree, at) {
            Some(children) => {
                literals_open(tree, children, 0, words, signed);
                arguments_open(tree, children, 0, words, signed);
            },
            None => {},
        }
    }
}

proof fn literals_open(tree: Commands, children: Seq<u32>, i: int, words: Seq<Seq<char>>, signed: bool)
    requires
        open_to_all(tree),
    ensures
        literals_of(tree, children, i, words, signed, false) matches Some(Some(found)) ==> !found.1,
    decreases words.len(), 2int, children.len() - i,
{
    if 0 <= i < children.len() && words.len() > 0 && known(tree, children[i] as int) {
        walks_open(tree, children[i] as int, words.skip(1), signed);
        literals_open(tree, children, i + 1, words, signed);
    }
}

proof fn arguments_open(tree: Commands, children: Seq<u32>, i: int, words: Seq<Seq<char>>, signed: bool)
    requires
        open_to_all(tree),
    ensures
        arguments_of(tree, children, i, words, signed, false) matches Some(Some(found)) ==> !found.1,
    decreases words.len(), 1int, children.len() - i,
{
    if 0 <= i < children.len() && words.len() > 0 && known(tree, children[i] as int) {
        widths_open(tree, children[i] as int, words, 1, signed);
        arguments_open(tree, children, i + 1, words, signed);
    }
}

proof fn widths_open(tree: Commands, at: int, words: Seq<Seq<char>>, taken: int, signed: bool)
    requires
        open_to_all(tree),
    ensures
        widths_of(tree, at, words, taken, signed, false) matches Some(found) ==> !found.1,
    decreases words.len(), 0int, WIDEST_ARGUMENT + 1 - taken,
{
    if 1 <= taken <= words.len() && taken <= WIDEST_ARGUMENT {
        walks_open(tree, at, words.skip(taken), signed);
        widths_open(tree, at, words, taken + 1, signed);
    }
}

/// What was found, with flags that stood before.
pub open spec fn flagged(found: Option<(bool, bool)>, signed: bool, restricted: bool) -> Option<
    (bool, bool),
> {
    match found {
        Some((a, b)) => Some((a || signed, b || restricted)),
        None => None,
    }
}

/// Whether words lead anywhere does not depend on the two flags, a flag that stood before stands
/// after, and where no words are left the node alone decides.
pub proof fn flags_only_grow(
    tree: Commands,
    at: int,
    words: Seq<Seq<char>>,
    signed: bool,
    restricted: bool,
)
    ensures
        walk_of(tree, at, words, signed, restricted) == flagged(
            walk_of(tree, at, words, false, false),
            signed,
            restricted,
        ),
        walk_of(tree, at, words, signed, restricted) is Some == walk_of(
            tree,
            at,
            words,
            false,
            false,
        ) is Some,
        walk_of(tree, at, words, signed, restricted) matches Some((s, r)) ==> (signed ==> s) && (
        restricted ==> r),
        words.len() == 0 ==> walk_of(tree, at, words, signed, restricted) == if known(tree, at)
            && tree.entries@[at].executable {
            Some((signed, restricted))
        } else {
            None
        },
    decreases words.len(), 3int, 0int,
{
    if known(tree, at) && words.len() > 0 {
        match children_of(tree, at) {
            Some(children) => {
                literals_grow(tree, children, 0, words, signed, restricted);
                arguments_grow(tree, children, 0, words, signed, restricted);
            },
            None => {},
        }
    }
}

spec fn flagged_inside(found: Option<Option<(bool, bool)>>, signed: bool, restricted: bool) -> Option<
    Option<(bool, bool)>,
> {
    match found {
        Some(found) => Some(flagged(found, signed, restricted)),
        None => None,
    }
}

proof fn literals_grow(
    tree: Commands,
    children: Seq<u32>,
    i: int,
    words: Seq<Seq<char>>,
    signed: bool,
    restricted: bool,
)
    ensures
        literals_of(tree, children, i, words, signed, restricted) == flagged_inside(
            literals_of(tree, children, i, words, false, false),
            signed,
            restricted,
        ),
    decreases words.len(), 2int, children.len() - i,
{
    if 0 <= i < children.len() && words.len() > 0 && known(tree, children[i] as int) {
        let at = children[i] as int;
        let limited = tree.entries@[at].restricted;
        flags_only_grow(tree, at, words.skip(1), signed, restricted || limited);
        flags_only_grow(tree, at, words.skip(1), false, limited);
        literals_grow(tree, children, i + 1, words, signed, restricted);
    }
}

proof fn arguments_grow(
    tree: Commands,
    children: Seq<u32>,
    i: int,
    words: Seq<Seq<char>>,
    signed: bool,
    restricted: bool,
)
    ensures
        arguments_of(tree, children, i, words, signed, restricted) == flagged_inside(
            arguments_of(tree, children, i, words, false, false),
            signed,
            restricted,
        ),
    decreases words.len(), 1int, children.len() - i,
{
    if 0 <= i < children.len() && words.len() > 0 && known(tree, children[i] as int) {
        let at = children[i] as int;
        let limited = tree.entries@[at].restricted;
        widths_grow(tree, at, words, 1, signed, restricted || limited);
        widths_grow(tree, at, words, 1, false, limited);
        arguments_grow(tree, children, i + 1, words, signed, restricted);
    }
}

proof fn widths_grow(
    tree: Commands,
    at: int,
    words: Seq<Seq<char>>,
    taken: int,
    signed: bool,
    restricted: bool,
)
    ensures
        widths_of(tree, at, words, taken, signed, restricted) == flagged(
            widths_of(tree, at, words, taken, false, false),
            signed,
            restricted,
        ),
    decreases words.len(), 0int, WIDEST_ARGUMENT + 1 - taken,
{
    if 1 <= taken <= words.len() && taken <= WIDEST_ARGUMENT {
        flags_only_grow(tree, at, words.skip(taken), signed, restricted);
        widths_grow(tree, at, words, taken + 1, signed, restricted);
    }
}

/// A command is checked by where its words lead: nowhere is a parse error, a signed argument outweighs a
/// restriction, and without a tree nothing is known.
pub proof fn a_command_is_checked_by_where_it_leads(tree: Commands, command: Seq<char>)
    ensures
        check_of(None, command) == Check::ParseErrors,
        ({
            let found = walk_of(tree, tree.root_index as int, words_of(command), false, false);
            &&& found is None ==> check_of(Some(tree), command) == Check::ParseErrors
            &&& found == Some((true, true)) || found == Some((true, false)) ==> check_of(
                Some(tree),
                command,
            ) == Check::SignatureRequired
            &&& found == Some((false, true)) ==> check_of(Some(tree), command)
                == Check::PermissionsRequired
            &&& found == Some((false, false)) ==> check_of(Some(tree), command) == Check::NoIssues
        }),
        WIDEST_ARGUMENT == 4,
{
}

/// A word leads on by the child it names, restricted where that child is; and only where no child is that
/// word by an argument, a message taking all of it as something the player would sign.
pub proof fn a_word_leads_by_its_literal_first(
    tree: Commands,
    children: Seq<u32>,
    words: Seq<Seq<char>>,
    signed: bool,
    restricted: bool,
)
    requires
        children.len() > 0,
        words.len() > 0,
        known(tree, children[0] as int),
    ensures
        ({
            let next = tree.entries@[children[0] as int];
            let on = walk_of(
                tree,
                children[0] as int,
                words.skip(1),
                signed,
                restricted || next.restricted,
            );
            &&& (next.kind matches NodeKind::Literal(name) && name@ == words[0]) && on is Some
                ==> literals_of(tree, children, 0, words, signed, restricted) == Some(on)
            &&& (next.kind matches NodeKind::Literal(name) && name@ != words[0]) ==> literals_of(
                tree,
                children,
                0,
                words,
                signed,
                restricted,
            ) == literals_of(tree, children, 1, words, signed, restricted)
            &&& next.kind == NodeKind::Argument(Parser::Message) && next.executable ==> arguments_of(
                tree,
                children,
                0,
                words,
                signed,
                restricted,
            ) == Some(Some((true, restricted || next.restricted)))
            &&& next.kind matches NodeKind::Argument(parser) ==> (parser != Parser::Message && parser
                != Parser::Other && next.executable ==> arguments_of(
                tree,
                children,
                0,
                words,
                signed,
                restricted,
            ) == Some(Some((signed, restricted || next.restricted))))
        }),
{
}

/// A node leads on by its own children, or by those of the node it redirects to; an argument of several
/// words takes the fewest that lead anywhere, and at most four.
pub proof fn a_redirect_leads_where_it_points(
    tree: Commands,
    at: int,
    words: Seq<Seq<char>>,
    signed: bool,
    restricted: bool,
)
    requires
        known(tree, at),
    ensures
        tree.entries@[at].redirect is None ==> children_of(tree, at) == Some(
            tree.entries@[at].children@,
        ),
        tree.entries@[at].redirect matches Some(target) ==> (known(tree, target as int)
            ==> children_of(tree, at) == Some(tree.entries@[target as int].children@)) && (!known(
            tree,
            target as int,
        ) ==> children_of(tree, at) is None),
        words.len() > 0 ==> (walk_of(tree, at, words.skip(1), signed, restricted) matches Some(found)
            ==> widths_of(tree, at, words, 1, signed, restricted) == Some(found)),
        widths_of(tree, at, words, 5, signed, restricted) is None,
        known(tree, at) <==> 0 <= at < tree.entries@.len(),
{
}

/// The words of a command are the pieces between its spaces, the empty ones left out.
pub proof fn the_words_are_between_the_spaces(pieces: Seq<Seq<char>>, piece: Seq<char>, command: Seq<char>)
    ensures
        words_of(command) == filled(split_by(command, ' ')),
        filled(Seq::empty()).len() == 0,
        piece.len() == 0 ==> filled(pieces.push(piece)) == filled(pieces),
        piece.len() > 0 ==> filled(pieces.push(piece)) == filled(pieces).push(piece),
{
    assert(pieces.push(piece).drop_last() =~= pieces);
}

} // verus!
