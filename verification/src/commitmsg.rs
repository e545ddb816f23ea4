//! The conventional commit-message formatter: a type, an optional scope, a
//! breaking-change mark, a description, and optional body and footers.

use vstd::prelude::*;
use crate::strutil::strings_of;

verus! {

/// The conventional commit types.
#[derive(Debug, Clone, Copy, PartialEq, Eq, Structural)]
pub enum CommitType {
    Fix,
    Feat,
    Build,
    Chore,
    Ci,
    Docs,
    Style,
    Refactor,
    Perf,
    Test,
}

/// The tag a commit type is written as.
pub open spec fn type_label(t: CommitType) -> Seq<char> {
    match t {
        CommitType::Fix => "fix"@,
        CommitType::Feat => "feat"@,
        CommitType::Build => "build"@,
        CommitType::Chore => "chore"@,
        CommitType::Ci => "ci"@,
        CommitType::Docs => "docs"@,
        CommitType::Style => "style"@,
        CommitType::Refactor => "refactor"@,
        CommitType::Perf => "perf"@,
        CommitType::Test => "test"@,
    }
}

impl CommitType {
    /// The tag this type is written as.
    pub fn label(&self) -> (r: &'static str)
        ensures
            r@ == type_label(*self),
    {
        match self {
            CommitType::Fix => "fix",
            CommitType::Feat => "feat",
            CommitType::Build => "build",
            CommitType::Chore => "chore",
            CommitType::Ci => "ci",
            CommitType::Docs => "docs",
            CommitType::Style => "style",
            CommitType::Refactor => "refactor",
            CommitType::Perf => "perf",
            CommitType::Test => "test",
        }
    }
}

/// The parts joined by single newlines.
pub open spec fn join_lines(parts: Seq<Seq<char>>) -> Seq<char>
    decreases parts.len(),
{
    if parts.len() == 0 {
        Seq::empty()
    } else if parts.len() == 1 {
        parts[0]
    } else {
        parts[0] + "\n"@ + join_lines(parts.drop_first())
    }
}

/// Joining one more part appends a newline and the part.
proof fn lemma_join_lines_snoc(parts: Seq<Seq<char>>, x: Seq<char>)
    requires
        parts.len() >= 1,
    ensures
        join_lines(parts.push(x)) == join_lines(parts) + "\n"@ + x,
    decreases parts.len(),
{
    let q = parts.push(x);
    if parts.len() == 1 {
        assert(q.drop_first() =~= seq![x]);
        assert(join_lines(q.drop_first()) == x);
    } else {
        assert(q[0] == parts[0]);
        assert(q.drop_first() =~= parts.drop_first().push(x));
        lemma_join_lines_snoc(parts.drop_first(), x);
        assert((parts[0] + "\n"@ + (join_lines(parts.drop_first()) + "\n"@ + x)) =~= (parts[0]
            + "\n"@ + join_lines(parts.drop_first())) + "\n"@ + x);
    }
}

/// Joins the parts with single newlines.
#[verifier::loop_isolation(false)]
fn join_lines_exec(parts: &Vec<String>) -> (r: String)
    ensures
        r@ == join_lines(strings_of(parts@)),
{
    let ghost pv = strings_of(parts@);
    let mut r = String::new();
    if parts.len() == 0 {
        proof {
            assert(r@ =~= join_lines(pv));
        }
        return r;
    }
    r.append(parts[0].as_str());
    proof {
        assert(pv.subrange(0, 1) =~= seq![pv[0]]);
        assert(join_lines(pv.subrange(0, 1)) == pv[0]);
        assert(r@ =~= join_lines(pv.subrange(0, 1)));
    }
    let mut i: usize = 1;
    while i < parts.len()
        invariant
            1 <= i <= parts@.len(),
            r@ == join_lines(pv.subrange(0, i as int)),
        decreases parts@.len() - i,
    {
        r.append("\n");
        r.append(parts[i].as_str());
        proof {
            lemma_join_lines_snoc(pv.subrange(0, i as int), pv[i as int]);
            assert(pv.subrange(0, i as int).push(pv[i as int]) =~= pv.subrange(0, i as int + 1));
            assert(r@ =~= join_lines(pv.subrange(0, i as int)) + "\n"@ + pv[i as int]);
        }
        i = i + 1;
    }
    proof {
        assert(pv.subrange(0, parts@.len() as int) =~= pv);
    }
    r
}

/// The image of an optional string.
pub open spec fn opt_str_view(o: Option<String>) -> Option<Seq<char>> {
    match o {
        Some(s) => Some(s@),
        None => None,
    }
}

/// The image of an optional string list.
pub open spec fn opt_strs_view(o: Option<Vec<String>>) -> Option<Seq<Seq<char>>> {
    match o {
        Some(v) => Some(strings_of(v@)),
        None => None,
    }
}

/// The message a commit is written as: the type tag, the scope in
/// parentheses if any, `!` when breaking, `: `, the description, then the
/// body and the newline-joined footers, each after a blank line.
pub open spec fn format_msg_spec(
    t: CommitType,
    scope: Option<Seq<char>>,
    description: Seq<char>,
    breaking: bool,
    body: Option<Seq<char>>,
    footer: Option<Seq<Seq<char>>>,
) -> Seq<char> {
    type_label(t) + (match scope {
        Some(s) => "("@ + s + ")"@,
        None => Seq::empty(),
    }) + (if breaking {
        "!"@
    } else {
        Seq::<char>::empty()
    }) + ": "@ + description + (match body {
        Some(b) => "\n\n"@ + b,
        None => Seq::empty(),
    }) + (match footer {
        Some(f) => "\n\n"@ + join_lines(f),
        None => Seq::empty(),
    })
}

/// Writes the commit message.
pub fn format_msg(
    commit_type: CommitType,
    scope: &Option<String>,
    description: &str,
    breaking: bool,
    body: &Option<String>,
    footer: &Option<Vec<String>>,
) -> (r: String)
    ensures
        r@ == format_msg_spec(
            commit_type,
            opt_str_view(*scope),
            description@,
            breaking,
            opt_str_view(*body),
            match footer {
                Some(f) => Some(strings_of(f@)),
                None => None,
            },
        ),
{
    let mut r = commit_type.label().to_owned();
    match scope {
        Some(s) => {
            r.append("(");
            r.append(s.as_str());
            r.append(")");
        },
        None => {},
    }
    if breaking {
        r.append("!");
    }
    r.append(": ");
    r.append(description);
    match body {
        Some(b) => {
            r.append("\n\n");
            r.append(b.as_str());
        },
        None => {},
    }
    match footer {
        Some(f) => {
            r.append("\n\n");
            let joined = join_lines_exec(f);
            r.append(joined.as_str());
        },
        None => {},
    }
    proof {
        assert(r@ =~= format_msg_spec(
            commit_type,
            opt_str_view(*scope),
            description@,
            breaking,
            opt_str_view(*body),
            match footer {
                Some(f) => Some(strings_of(f@)),
                None => None,
            },
        ));
    }
    r
}

} // verus!
