//! Agent definitions: the banner a definition renders to, and the parsing
//! of the plain-text agent index.
//!
//! Reading the definition file from disk and decoding its YAML stay with
//! the caller; this module holds the decoded plain values and everything
//! computed from them.

use vstd::prelude::*;

use crate::strutil::{lemma_views_push, split_on, split_range_on, trim_spec, trim_str, views};

verus! {

/// The decoded definition of one agent.
#[derive(Debug, Clone)]
pub struct AgentDefinition {
    pub name: String,
    pub description: String,
    pub version: String,
    pub instructions: String,
    pub conversation_starters: Vec<String>,
}

/// The bullet list of conversation starters, one `- ` line per starter,
/// separated by newlines.
pub open spec fn starter_lines(vs: Seq<Seq<char>>) -> Seq<char>
    decreases vs.len(),
{
    if vs.len() == 0 {
        Seq::empty()
    } else if vs.len() == 1 {
        "- "@ + vs[0]
    } else {
        "- "@ + vs[0] + "\n"@ + starter_lines(vs.drop_first())
    }
}

/// The banner a definition renders to: a heading with name and version,
/// the description, and — when any exist — a conversation-starters section.
pub open spec fn banner_spec(d: AgentDefinition) -> Seq<char> {
    let head = "# "@ + d.name@ + " "@ + d.version@ + "\n"@ + d.description@;
    if d.conversation_starters@.len() == 0 {
        head
    } else {
        head + "\n\n## Conversation Starters\n"@ + starter_lines(views(d.conversation_starters@))
    }
}

proof fn lemma_starter_lines_push(vs: Seq<Seq<char>>, x: Seq<char>)
    ensures
        vs.len() == 0 ==> starter_lines(vs.push(x)) == "- "@ + x,
        vs.len() > 0 ==> starter_lines(vs.push(x)) == starter_lines(vs) + "\n"@ + "- "@ + x,
    decreases vs.len(),
{
    if vs.len() == 0 {
        assert(vs.push(x)[0] == x);
    } else if vs.len() == 1 {
        assert(vs.push(x)[0] == vs[0]);
        assert(vs.push(x).drop_first() =~= seq![x]);
        assert(starter_lines(seq![x]) == "- "@ + x);
        assert("- "@ + vs[0] + "\n"@ + ("- "@ + x) =~= ("- "@ + vs[0]) + "\n"@ + "- "@ + x);
    } else {
        assert(vs.push(x)[0] == vs[0]);
        assert(vs.push(x).drop_first() =~= vs.drop_first().push(x));
        lemma_starter_lines_push(vs.drop_first(), x);
        assert("- "@ + vs[0] + "\n"@ + (starter_lines(vs.drop_first()) + "\n"@ + "- "@ + x) =~= (
        "- "@ + vs[0] + "\n"@ + starter_lines(vs.drop_first())) + "\n"@ + "- "@ + x);
    }
}

impl AgentDefinition {
    /// Render the banner shown when the agent is selected.
    pub fn banner(&self) -> (r: String)
        ensures
            r@ == banner_spec(*self),
    {
        let ghost head = "# "@ + self.name@ + " "@ + self.version@ + "\n"@ + self.description@;
        let mut out = String::from_str("# ");
        out.append(self.name.as_str());
        out.append(" ");
        out.append(self.version.as_str());
        out.append("\n");
        out.append(self.description.as_str());
        proof {
            assert(out@ =~= head);
        }
        let n = self.conversation_starters.len();
        if n > 0 {
            out.append("\n\n## Conversation Starters\n");
            let ghost pre = out@;
            let mut i: usize = 0;
            while i < n
                invariant
                    i <= n,
                    n == self.conversation_starters@.len(),
                    pre == head + "\n\n## Conversation Starters\n"@,
                    i == 0 ==> out@ == pre,
                    i > 0 ==> out@ == pre + starter_lines(
                        views(self.conversation_starters@).subrange(0, i as int),
                    ),
                decreases n - i,
            {
                if i > 0 {
                    out.append("\n");
                }
                out.append("- ");
                out.append(self.conversation_starters[i].as_str());
                proof {
                    let vs = views(self.conversation_starters@);
                    assert(vs.subrange(0, i + 1) =~= vs.subrange(0, i as int).push(
                        vs[i as int],
                    ));
                    lemma_starter_lines_push(vs.subrange(0, i as int), vs[i as int]);
                    assert(out@ =~= pre + starter_lines(vs.subrange(0, i + 1)));
                }
                i = i + 1;
            }
            proof {
                assert(views(self.conversation_starters@).subrange(0, n as int) =~= views(
                    self.conversation_starters@,
                ));
            }
        }
        out
    }
}

/// The lines of the agent index that survive: each line trimmed of ASCII
/// whitespace, empty lines dropped, order kept.
pub open spec fn kept_lines(ls: Seq<Seq<char>>) -> Seq<Seq<char>>
    decreases ls.len(),
{
    if ls.len() == 0 {
        Seq::empty()
    } else {
        (if trim_spec(ls[0]).len() > 0 {
            seq![trim_spec(ls[0])]
        } else {
            Seq::empty()
        }) + kept_lines(ls.drop_first())
    }
}

/// The agent names listed in an index file's contents.
pub open spec fn agents_of(s: Seq<char>) -> Seq<Seq<char>> {
    kept_lines(split_on(s, '\n'))
}

/// Parse the agent index: one agent name per non-empty line, trimmed.
pub fn list_agents(contents: &str) -> (r: Vec<String>)
    ensures
        views(r@) == agents_of(contents@),
{
    let n = contents.unicode_len();
    let lines = split_range_on(contents, 0, n, '\n');
    proof {
        assert(contents@.subrange(0, n as int) =~= contents@);
    }
    let m = lines.len();
    let mut out: Vec<String> = Vec::new();
    proof {
        assert(views(out@) =~= Seq::<Seq<char>>::empty());
        assert(views(lines@).subrange(0, m as int) =~= views(lines@));
        assert(Seq::<Seq<char>>::empty() + views(lines@) =~= views(lines@));
    }
    let mut i: usize = 0;
    while i < m
        invariant
            i <= m,
            m == lines@.len(),
            views(lines@) == split_on(contents@, '\n'),
            views(out@) + kept_lines(views(lines@).subrange(i as int, m as int)) == agents_of(
                contents@,
            ),
        decreases m - i,
    {
        let ghost ls = views(lines@);
        let ghost suf = ls.subrange(i as int, m as int);
        proof {
            assert(suf[0] == ls[i as int]);
            assert(suf.drop_first() =~= ls.subrange(i + 1, m as int));
        }
        let t = trim_str(lines[i].as_str());
        if !t.is_empty() {
            let owned = String::from_str(t);
            proof {
                lemma_views_push(out@, owned);
                assert(views(out@.push(owned)) =~= views(out@) + seq![trim_spec(ls[i as int])]);
            }
            out.push(owned);
        }
        i = i + 1;
    }
    proof {
        assert(views(lines@).subrange(m as int, m as int) =~= Seq::<Seq<char>>::empty());
    }
    out
}

} // verus!
