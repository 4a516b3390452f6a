//! Syntax trees and their mathematical view.

use vstd::prelude::*;

verus! {

/// One construct of a syntax tree.
#[derive(Debug)]
#[allow(inconsistent_fields)]
pub enum ASTNode {
    /// A file of scanner rules.
    FlexFile { rules: Vec<ASTNode> },
    /// One scanner rule: a pattern and the action to run on a match.
    FlexRule { pattern: String, action: String },
    /// A grammar file: its declarations and its productions.
    BisonFile { declarations: Vec<ASTNode>, rules: Vec<ASTNode> },
    /// A declaration of token names.
    BisonTokenDecl { names: Vec<String> },
    /// A production: its name and its alternatives.
    BisonGrammarRule { name: String, alternatives: Vec<ASTNode> },
    /// One alternative of a production: its symbols and its action, if any.
    BisonAlternative { symbols: Vec<String>, action: Option<String> },
    /// A construct that could not be parsed, with the place of the failure.
    Error { message: String, line: usize, column: usize },
}

/// What an `ASTNode` stands for in contracts.
#[allow(inconsistent_fields)]
pub ghost enum SyntaxTree {
    FlexFile { rules: Seq<SyntaxTree> },
    FlexRule { pattern: Seq<char>, action: Seq<char> },
    BisonFile { declarations: Seq<SyntaxTree>, rules: Seq<SyntaxTree> },
    BisonTokenDecl { names: Seq<Seq<char>> },
    BisonGrammarRule { name: Seq<char>, alternatives: Seq<SyntaxTree> },
    BisonAlternative { symbols: Seq<Seq<char>>, action: Option<Seq<char>> },
    Error { message: Seq<char>, line: nat, column: nat },
}

/// The texts of a sequence of strings, in order.
pub open spec fn texts(strings: Seq<String>) -> Seq<Seq<char>> {
    strings.map_values(|s: String| s@)
}

/// The text of an optional string.
pub open spec fn optional_text(s: Option<String>) -> Option<Seq<char>> {
    match s {
        Some(s) => Some(s@),
        None => None,
    }
}

impl ASTNode {
    /// The tree that the node stands for.
    pub open spec fn tree(&self) -> SyntaxTree
        decreases self,
    {
        match self {
            ASTNode::FlexFile { rules } => SyntaxTree::FlexFile {
                rules: Seq::new(
                    rules@.len(),
                    |i: int|
                        if 0 <= i < rules@.len() {
                            rules@[i].tree()
                        } else {
                            arbitrary()
                        },
                ),
            },
            ASTNode::FlexRule { pattern, action } => SyntaxTree::FlexRule {
                pattern: pattern@,
                action: action@,
            },
            ASTNode::BisonFile { declarations, rules } => SyntaxTree::BisonFile {
                declarations: Seq::new(
                    declarations@.len(),
                    |i: int|
                        if 0 <= i < declarations@.len() {
                            declarations@[i].tree()
                        } else {
                            arbitrary()
                        },
                ),
                rules: Seq::new(
                    rules@.len(),
                    |i: int|
                        if 0 <= i < rules@.len() {
                            rules@[i].tree()
                        } else {
                            arbitrary()
                        },
                ),
            },
            ASTNode::BisonTokenDecl { names } => SyntaxTree::BisonTokenDecl { names: texts(names@) },
            ASTNode::BisonGrammarRule { name, alternatives } => SyntaxTree::BisonGrammarRule {
                name: name@,
                alternatives: Seq::new(
                    alternatives@.len(),
                    |i: int|
                        if 0 <= i < alternatives@.len() {
                            alternatives@[i].tree()
                        } else {
                            arbitrary()
                        },
                ),
            },
            ASTNode::BisonAlternative { symbols, action } => SyntaxTree::BisonAlternative {
                symbols: texts(symbols@),
                action: optional_text(*action),
            },
            ASTNode::Error { message, line, column } => SyntaxTree::Error {
                message: message@,
                line: *line as nat,
                column: *column as nat,
            },
        }
    }
}

impl View for ASTNode {
    type V = SyntaxTree;

    open spec fn view(&self) -> SyntaxTree {
        self.tree()
    }
}

/// The views of a sequence of nodes, in order.
pub open spec fn trees(nodes: Seq<ASTNode>) -> Seq<SyntaxTree> {
    nodes.map_values(|n: ASTNode| n@)
}

/// The view of a node with children holds the views of its children, in
/// order.
pub proof fn lemma_view_of_children(node: ASTNode)
    ensures
        match node {
            ASTNode::FlexFile { rules } => node@ == (SyntaxTree::FlexFile { rules: trees(rules@) }),
            ASTNode::BisonFile { declarations, rules } => node@ == (SyntaxTree::BisonFile {
                declarations: trees(declarations@),
                rules: trees(rules@),
            }),
            ASTNode::BisonGrammarRule { name, alternatives } => node@
                == (SyntaxTree::BisonGrammarRule {
                name: name@,
                alternatives: trees(alternatives@),
            }),
            _ => true,
        },
{
    match node {
        ASTNode::FlexFile { rules } => {
            assert(node@->FlexFile_rules =~= trees(rules@));
        },
        ASTNode::BisonFile { declarations, rules } => {
            assert(node@->BisonFile_declarations =~= trees(declarations@));
            assert(node@->BisonFile_rules =~= trees(rules@));
        },
        ASTNode::BisonGrammarRule { name, alternatives } => {
            assert(node@->BisonGrammarRule_alternatives =~= trees(alternatives@));
        },
        _ => {},
    }
}

/// A copy of every string of `strings`, in order.
pub fn clone_strings(strings: &Vec<String>) -> (res: Vec<String>)
    ensures
        texts(res@) == texts(strings@),
{
    let mut out: Vec<String> = Vec::new();
    let mut i: usize = 0;
    while i < strings.len()
        invariant
            i <= strings@.len(),
            texts(out@) == texts(strings@.subrange(0, i as int)),
        decreases strings@.len() - i,
    {
        out.push(strings[i].clone());
        assert(texts(strings@.subrange(0, i as int + 1)) =~= texts(
            strings@.subrange(0, i as int),
        ).push(strings@[i as int]@));
        i += 1;
    }
    out
}

/// A copy of every node of `nodes`, in order.
pub fn clone_nodes(nodes: &Vec<ASTNode>) -> (res: Vec<ASTNode>)
    ensures
        trees(res@) == trees(nodes@),
    decreases nodes,
{
    let mut out: Vec<ASTNode> = Vec::new();
    let mut i: usize = 0;
    while i < nodes.len()
        invariant
            i <= nodes@.len(),
            trees(out@) == trees(nodes@.subrange(0, i as int)),
        decreases nodes@.len() - i,
    {
        out.push(nodes[i].clone());
        assert(trees(nodes@.subrange(0, i as int + 1)) =~= trees(
            nodes@.subrange(0, i as int),
        ).push(nodes@[i as int]@));
        i += 1;
    }
    out
}

impl Clone for ASTNode {
    /// A copy of the node that stands for the same tree.
    fn clone(&self) -> (res: Self)
        ensures
            res@ == self@,
        decreases self,
    {
        proof {
            lemma_view_of_children(*self);
        }
        let res = match self {
            ASTNode::FlexFile { rules } => ASTNode::FlexFile { rules: clone_nodes(rules) },
            ASTNode::FlexRule { pattern, action } => ASTNode::FlexRule {
                pattern: pattern.clone(),
                action: action.clone(),
            },
            ASTNode::BisonFile { declarations, rules } => ASTNode::BisonFile {
                declarations: clone_nodes(declarations),
                rules: clone_nodes(rules),
            },
            ASTNode::BisonTokenDecl { names } => ASTNode::BisonTokenDecl {
                names: clone_strings(names),
            },
            ASTNode::BisonGrammarRule { name, alternatives } => ASTNode::BisonGrammarRule {
                name: name.clone(),
                alternatives: clone_nodes(alternatives),
            },
            ASTNode::BisonAlternative { symbols, action } => ASTNode::BisonAlternative {
                symbols: clone_strings(symbols),
                action: match action {
                    Some(text) => Some(text.clone()),
                    None => None,
                },
            },
            ASTNode::Error { message, line, column } => ASTNode::Error {
                message: message.clone(),
                line: *line,
                column: *column,
            },
        };
        proof {
            lemma_view_of_children(res);
        }
        res
    }
}

} // verus!
