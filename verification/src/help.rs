//! Command metadata and the help-text renderer.
//!
//! A command's registered metadata is its name, an optional description and
//! an ordered list of argument specifications. The rendered help holds a
//! usage line (angle brackets for required arguments, square brackets for
//! optional ones), the description re-indented to at least two leading
//! spaces per line, and a column-aligned table of argument name, type tag
//! and description, padded to the widest entry.

use vstd::prelude::*;

use crate::text::spaces;

verus! {

/// Metadata of one command argument.
#[derive(Debug, PartialEq)]
pub struct CommandArgInfo {
    /// Argument name.
    pub name: String,
    /// Argument type as a string tag.
    pub ty: String,
    /// Argument description.
    pub description: Option<String>,
    /// Whether the argument is optional.
    pub optional: bool,
}

/// The view of one argument's metadata.
#[verifier::ext_equal]
pub struct ArgInfoView {
    /// Argument name.
    pub name: Seq<char>,
    /// Argument type tag.
    pub ty: Seq<char>,
    /// Argument description.
    pub description: Option<Seq<char>>,
    /// Whether the argument is optional.
    pub optional: bool,
}

impl View for CommandArgInfo {
    type V = ArgInfoView;

    open spec fn view(&self) -> ArgInfoView {
        ArgInfoView {
            name: self.name@,
            ty: self.ty@,
            description: match self.description {
                Some(d) => Some(d@),
                None => None,
            },
            optional: self.optional,
        }
    }
}

impl DeepView for CommandArgInfo {
    type V = ArgInfoView;

    open spec fn deep_view(&self) -> ArgInfoView {
        self.view()
    }
}

impl Clone for CommandArgInfo {
    /// An equal copy of the argument metadata.
    fn clone(&self) -> (r: CommandArgInfo)
        ensures
            r == *self,
    {
        CommandArgInfo {
            name: self.name.clone(),
            ty: self.ty.clone(),
            description: match &self.description {
                Some(d) => Some(d.clone()),
                None => None,
            },
            optional: self.optional,
        }
    }
}

/// Metadata of one command: registered once, read during dispatch and help
/// rendering.
#[derive(Debug, PartialEq)]
pub struct CommandInfo {
    /// Command name.
    pub name: String,
    /// Command description.
    pub description: Option<String>,
    /// Command argument information, in signature order.
    pub args: Vec<CommandArgInfo>,
}

/// The view of a command's metadata.
#[verifier::ext_equal]
pub struct CommandInfoView {
    /// Command name.
    pub name: Seq<char>,
    /// Command description.
    pub description: Option<Seq<char>>,
    /// Argument metadata in signature order.
    pub args: Seq<ArgInfoView>,
}

impl View for CommandInfo {
    type V = CommandInfoView;

    open spec fn view(&self) -> CommandInfoView {
        CommandInfoView {
            name: self.name@,
            description: match self.description {
                Some(d) => Some(d@),
                None => None,
            },
            args: self.args.deep_view(),
        }
    }
}

impl DeepView for CommandInfo {
    type V = CommandInfoView;

    open spec fn deep_view(&self) -> CommandInfoView {
        self.view()
    }
}

impl Clone for CommandInfo {
    /// A copy of the command metadata with the same view.
    fn clone(&self) -> (r: CommandInfo)
        ensures
            r@ == self@,
    {
        let mut args: Vec<CommandArgInfo> = Vec::new();
        let mut i: usize = 0;
        while i < self.args.len()
            invariant
                0 <= i <= self.args.len(),
                args@.len() == i,
                forall|k: int| 0 <= k < i ==> args@[k] == self.args@[k],
            decreases self.args.len() - i,
        {
            args.push(self.args[i].clone());
            i = i + 1;
        }
        proof {
            assert(args.deep_view() =~= self.args.deep_view());
        }
        let r = CommandInfo {
            name: self.name.clone(),
            description: match &self.description {
                Some(d) => Some(d.clone()),
                None => None,
            },
            args,
        };
        proof {
            assert(r@ =~= self@);
        }
        r
    }
}

/// The larger of two lengths.
pub open spec fn max_nat(a: nat, b: nat) -> nat {
    if a >= b {
        a
    } else {
        b
    }
}

/// The widest argument name of a signature.
pub open spec fn max_name_len(args: Seq<ArgInfoView>) -> nat
    decreases args.len(),
{
    if args.len() == 0 {
        0
    } else {
        max_nat(args[0].name.len(), max_name_len(args.drop_first()))
    }
}

/// The widest type tag of a signature.
pub open spec fn max_ty_len(args: Seq<ArgInfoView>) -> nat
    decreases args.len(),
{
    if args.len() == 0 {
        0
    } else {
        max_nat(args[0].ty.len(), max_ty_len(args.drop_first()))
    }
}

/// Every argument name fits in the widest-name column.
pub proof fn lemma_max_name_bound(args: Seq<ArgInfoView>)
    ensures
        forall|k: int| 0 <= k < args.len() ==> #[trigger] args[k].name.len() <= max_name_len(args),
        forall|k: int| 0 <= k < args.len() ==> #[trigger] args[k].ty.len() <= max_ty_len(args),
    decreases args.len(),
{
    if args.len() > 0 {
        lemma_max_name_bound(args.drop_first());
        assert forall|k: int| 0 <= k < args.len() implies #[trigger] args[k].name.len()
            <= max_name_len(args) by {
            if k >= 1 {
                assert(args[k] == args.drop_first()[k - 1]);
            }
        }
        assert forall|k: int| 0 <= k < args.len() implies #[trigger] args[k].ty.len() <= max_ty_len(
            args,
        ) by {
            if k >= 1 {
                assert(args[k] == args.drop_first()[k - 1]);
            }
        }
    }
}

/// One argument of the usage line.
pub open spec fn usage_arg(a: ArgInfoView) -> Seq<char> {
    " "@ + (if a.optional {
        "["@
    } else {
        "<"@
    }) + a.name + (if a.optional {
        "]"@
    } else {
        ">"@
    })
}

/// The argument part of the usage line.
pub open spec fn usage_args(args: Seq<ArgInfoView>) -> Seq<char>
    decreases args.len(),
{
    if args.len() == 0 {
        Seq::empty()
    } else {
        usage_arg(args[0]) + usage_args(args.drop_first())
    }
}

/// The first position at or after `i` that does not hold a plain space.
pub open spec fn spaces_end(s: Seq<char>, i: int) -> int
    decreases s.len() - i when 0 <= i <= s.len()
{
    if i < s.len() && s[i] == ' ' {
        spaces_end(s, i + 1)
    } else {
        i
    }
}

/// The position of the next line break at or after `i`, or the end.
pub open spec fn line_end(s: Seq<char>, i: int) -> int
    decreases s.len() - i when 0 <= i <= s.len()
{
    if i < s.len() && s[i] != '\n' {
        line_end(s, i + 1)
    } else {
        i
    }
}

/// `line_end` stays within the sequence.
pub proof fn lemma_line_end(s: Seq<char>, i: int)
    requires
        0 <= i <= s.len(),
    ensures
        i <= line_end(s, i) <= s.len(),
    decreases s.len() - i,
{
    if i < s.len() && s[i] != '\n' {
        lemma_line_end(s, i + 1);
    }
}

/// The padding that brings a line to at least two leading spaces.
pub open spec fn indent_pad(lead: int) -> Seq<char> {
    if lead >= 2 {
        Seq::empty()
    } else if lead == 1 {
        spaces(1)
    } else {
        spaces(2)
    }
}

/// The description from position `i` on, each line re-indented to at least
/// two leading spaces and closed with a line break.
pub open spec fn indented_from(s: Seq<char>, i: int) -> Seq<char>
    decreases s.len() - i when 0 <= i <= s.len() via indented_from_dec
{
    if i >= s.len() {
        Seq::empty()
    } else {
        let e = line_end(s, i);
        let next = if e < s.len() {
            e + 1
        } else {
            e
        };
        indent_pad(spaces_end(s, i) - i) + s.subrange(i, e) + "\n"@ + indented_from(s, next)
    }
}

#[via_fn]
proof fn indented_from_dec(s: Seq<char>, i: int) {
    if 0 <= i < s.len() {
        lemma_line_end(s, i);
    }
}

/// The whole description, re-indented.
pub open spec fn indented(s: Seq<char>) -> Seq<char> {
    indented_from(s, 0)
}

/// One row of the argument table, padded to the widest name and type tag.
pub open spec fn table_row(a: ArgInfoView, wn: nat, wt: nat) -> Seq<char> {
    "    "@ + a.name + " "@ + spaces((wn - a.name.len()) as nat) + (if a.optional {
        "["@
    } else {
        "<"@
    }) + a.ty + (if a.optional {
        "]"@
    } else {
        ">"@
    }) + spaces((wt - a.ty.len()) as nat) + (match a.description {
        Some(d) => "   - "@ + d + "\n"@,
        None => "\n"@,
    })
}

/// The argument table, one row per argument.
pub open spec fn table_rows(args: Seq<ArgInfoView>, wn: nat, wt: nat) -> Seq<char>
    decreases args.len(),
{
    if args.len() == 0 {
        Seq::empty()
    } else {
        table_row(args[0], wn, wt) + table_rows(args.drop_first(), wn, wt)
    }
}

/// The full help text of a command: usage line, re-indented description and
/// column-aligned argument table.
pub open spec fn help_text_spec(info: CommandInfoView) -> Seq<char> {
    "Usage:\n\n  > "@ + info.name + usage_args(info.args) + "\n\n"@ + (match info.description {
        Some(d) => indented(d) + "\n"@,
        None => Seq::empty(),
    }) + table_rows(info.args, max_name_len(info.args), max_ty_len(info.args))
}

/// End of the run of plain spaces starting at `from`.
fn spaces_end_exec(s: &str, from: usize) -> (r: usize)
    requires
        from <= s@.len(),
    ensures
        r == spaces_end(s@, from as int),
        from <= r <= s@.len(),
{
    let n = s.unicode_len();
    let mut i: usize = from;
    while i < n
        invariant
            n == s@.len(),
            from <= i <= n,
            spaces_end(s@, from as int) == spaces_end(s@, i as int),
        decreases n - i,
    {
        if s.get_char(i) != ' ' {
            return i;
        }
        i = i + 1;
    }
    i
}

/// Position of the next line break at or after `from`, or the end.
fn line_end_exec(s: &str, from: usize) -> (r: usize)
    requires
        from <= s@.len(),
    ensures
        r == line_end(s@, from as int),
        from <= r <= s@.len(),
{
    let n = s.unicode_len();
    let mut i: usize = from;
    while i < n
        invariant
            n == s@.len(),
            from <= i <= n,
            line_end(s@, from as int) == line_end(s@, i as int),
        decreases n - i,
    {
        if s.get_char(i) == '\n' {
            return i;
        }
        i = i + 1;
    }
    i
}

/// Re-indents a description so every line has at least two leading spaces,
/// closing each line with a line break.
fn indent_description(d: &str) -> (r: String)
    ensures
        r@ == indented(d@),
{
    let n = d.unicode_len();
    let mut buf = String::new();
    let mut i: usize = 0;
    while i < n
        invariant
            n == d@.len(),
            0 <= i <= n,
            buf@ + indented_from(d@, i as int) == indented(d@),
        decreases n - i,
    {
        let ghost pre = buf@;
        let e = line_end_exec(d, i);
        let se = spaces_end_exec(d, i);
        let lead = se - i;
        let pad: usize = if lead >= 2 {
            0
        } else {
            2 - lead
        };
        let padding = crate::text::space_run(pad);
        buf.append(padding.as_str());
        buf.append(d.substring_char(i, e));
        buf.append("\n");
        let next: usize = if e < n {
            e + 1
        } else {
            n
        };
        proof {
            assert(indent_pad(lead as int) == spaces(pad as nat));
            assert(buf@ =~= pre + (indent_pad(lead as int) + d@.subrange(i as int, e as int)
                + "\n"@));
            assert(pre + (indent_pad(lead as int) + d@.subrange(i as int, e as int) + "\n"@
                + indented_from(d@, next as int)) =~= buf@ + indented_from(d@, next as int));
        }
        i = next;
    }
    buf
}

impl CommandInfo {
    /// Renders the command's help: usage line, re-indented description and
    /// column-aligned argument table.
    #[verifier::rlimit(100)]
    pub fn help_text(&self) -> (r: String)
        ensures
            r@ == help_text_spec(self@),
    {
        let ghost argsv = self.args.deep_view();
        let mut buf = String::from_str("Usage:\n\n  > ");
        buf.append(self.name.as_str());
        let ghost t1 = "Usage:\n\n  > "@ + self.name@ + usage_args(argsv);
        proof {
            assert(argsv.skip(0) =~= argsv);
            assert(buf@ + usage_args(argsv) =~= t1);
        }
        let mut i: usize = 0;
        while i < self.args.len()
            invariant
                argsv == self.args.deep_view(),
                self.args@.len() == argsv.len(),
                0 <= i <= argsv.len(),
                buf@ + usage_args(argsv.skip(i as int)) == t1,
            decreases self.args.len() - i,
        {
            let ghost pre = buf@;
            let a = &self.args[i];
            proof {
                assert(a.deep_view() == argsv[i as int]);
            }
            buf.append(" ");
            if a.optional {
                buf.append("[");
            } else {
                buf.append("<");
            }
            buf.append(a.name.as_str());
            if a.optional {
                buf.append("]");
            } else {
                buf.append(">");
            }
            proof {
                assert(argsv.skip(i as int)[0] == argsv[i as int]);
                assert(argsv.skip(i as int).drop_first() =~= argsv.skip(i as int + 1));
                assert(usage_args(argsv.skip(i as int)) == usage_arg(argsv[i as int]) + usage_args(
                    argsv.skip(i as int + 1),
                ));
                assert(buf@ =~= pre + usage_arg(argsv[i as int]));
                assert(buf@ + usage_args(argsv.skip(i as int + 1)) =~= pre + usage_args(argsv.skip(
                    i as int,
                )));
            }
            i = i + 1;
        }
        proof {
            assert(argsv.skip(argsv.len() as int) =~= Seq::<ArgInfoView>::empty());
            assert(buf@ =~= t1);
        }
        buf.append("\n\n");
        if let Some(d) = &self.description {
            let ind = indent_description(d.as_str());
            buf.append(ind.as_str());
            buf.append("\n");
        }
        let ghost t3 = buf@;
        let mut wn: usize = 0;
        let mut wt: usize = 0;
        let mut j: usize = 0;
        proof {
            assert(argsv.skip(0) =~= argsv);
        }
        while j < self.args.len()
            invariant
                argsv == self.args.deep_view(),
                self.args@.len() == argsv.len(),
                0 <= j <= argsv.len(),
                max_name_len(argsv) == max_nat(wn as nat, max_name_len(argsv.skip(j as int))),
                max_ty_len(argsv) == max_nat(wt as nat, max_ty_len(argsv.skip(j as int))),
            decreases self.args.len() - j,
        {
            let a = &self.args[j];
            proof {
                assert(a.deep_view() == argsv[j as int]);
                assert(argsv.skip(j as int)[0] == argsv[j as int]);
                assert(argsv.skip(j as int).drop_first() =~= argsv.skip(j as int + 1));
            }
            let ln = a.name.as_str().unicode_len();
            if ln > wn {
                wn = ln;
            }
            let lt = a.ty.as_str().unicode_len();
            if lt > wt {
                wt = lt;
            }
            j = j + 1;
        }
        proof {
            assert(argsv.skip(argsv.len() as int) =~= Seq::<ArgInfoView>::empty());
            assert(wn as nat == max_name_len(argsv));
            assert(wt as nat == max_ty_len(argsv));
            lemma_max_name_bound(argsv);
            assert(argsv.skip(0) =~= argsv);
        }
        let mut k: usize = 0;
        while k < self.args.len()
            invariant
                argsv == self.args.deep_view(),
                self.args@.len() == argsv.len(),
                0 <= k <= argsv.len(),
                wn as nat == max_name_len(argsv),
                wt as nat == max_ty_len(argsv),
                forall|m: int| 0 <= m < argsv.len() ==> #[trigger] argsv[m].name.len() <= wn,
                forall|m: int| 0 <= m < argsv.len() ==> #[trigger] argsv[m].ty.len() <= wt,
                buf@ + table_rows(argsv.skip(k as int), wn as nat, wt as nat) == t3 + table_rows(
                    argsv,
                    wn as nat,
                    wt as nat,
                ),
            decreases self.args.len() - k,
        {
            let ghost pre = buf@;
            let a = &self.args[k];
            proof {
                assert(a.deep_view() == argsv[k as int]);
            }
            buf.append("    ");
            buf.append(a.name.as_str());
            buf.append(" ");
            let pn = crate::text::space_run(wn - a.name.as_str().unicode_len());
            buf.append(pn.as_str());
            if a.optional {
                buf.append("[");
            } else {
                buf.append("<");
            }
            buf.append(a.ty.as_str());
            if a.optional {
                buf.append("]");
            } else {
                buf.append(">");
            }
            let pt = crate::text::space_run(wt - a.ty.as_str().unicode_len());
            buf.append(pt.as_str());
            match &a.description {
                Some(d) => {
                    buf.append("   - ");
                    buf.append(d.as_str());
                    buf.append("\n");
                },
                None => {
                    buf.append("\n");
                },
            }
            proof {
                assert(argsv.skip(k as int)[0] == argsv[k as int]);
                assert(argsv.skip(k as int).drop_first() =~= argsv.skip(k as int + 1));
                assert(table_rows(argsv.skip(k as int), wn as nat, wt as nat) == table_row(
                    argsv[k as int],
                    wn as nat,
                    wt as nat,
                ) + table_rows(argsv.skip(k as int + 1), wn as nat, wt as nat));
                assert(buf@ =~= pre + table_row(argsv[k as int], wn as nat, wt as nat));
                assert(buf@ + table_rows(argsv.skip(k as int + 1), wn as nat, wt as nat) =~= pre
                    + table_rows(argsv.skip(k as int), wn as nat, wt as nat));
            }
            k = k + 1;
        }
        proof {
            assert(argsv.skip(argsv.len() as int) =~= Seq::<ArgInfoView>::empty());
            assert(buf@ =~= t3 + table_rows(argsv, wn as nat, wt as nat));
            assert(buf@ =~= help_text_spec(self@));
        }
        buf
    }
}

} // verus!
