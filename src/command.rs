use vstd::prelude::*;
use vstd::string::*;

verus! {

pub open spec fn digit_char(d: nat) -> char {
    seq!['0', '1', '2', '3', '4', '5', '6', '7', '8', '9'][d as int]
}

/// Decimal digits of `n`, most significant first, without leading zeros.
pub open spec fn digits(n: nat) -> Seq<char>
    decreases n,
{
    if n < 10 {
        seq![digit_char(n)]
    } else {
        digits(n / 10) + seq![digit_char(n % 10)]
    }
}

/// `n` written in decimal, with a leading `-` when negative.
pub open spec fn decimal(n: int) -> Seq<char> {
    if n < 0 {
        seq!['-'] + digits((-n) as nat)
    } else {
        digits(n as nat)
    }
}

/// `parts` with `sep` between each two neighbours.
pub open spec fn join(parts: Seq<Seq<char>>, sep: Seq<char>) -> Seq<char>
    decreases parts.len(),
{
    if parts.len() == 0 {
        Seq::empty()
    } else if parts.len() == 1 {
        parts[0]
    } else {
        join(parts.drop_last(), sep) + sep + parts.last()
    }
}

pub open spec fn texts(v: Vec<String>) -> Seq<Seq<char>> {
    v@.map_values(|s: String| s@)
}

pub open spec fn text_of(o: Option<String>) -> Option<Seq<char>> {
    match o {
        Some(s) => Some(s@),
        None => None,
    }
}

fn digit_text(d: u64) -> (r: &'static str)
    requires
        d < 10,
    ensures
        r@ == seq![digit_char(d as nat)],
{
    proof {
        reveal_strlit("0");
        reveal_strlit("1");
        reveal_strlit("2");
        reveal_strlit("3");
        reveal_strlit("4");
        reveal_strlit("5");
        reveal_strlit("6");
        reveal_strlit("7");
        reveal_strlit("8");
        reveal_strlit("9");
    }
    if d == 0 {
        "0"
    } else if d == 1 {
        "1"
    } else if d == 2 {
        "2"
    } else if d == 3 {
        "3"
    } else if d == 4 {
        "4"
    } else if d == 5 {
        "5"
    } else if d == 6 {
        "6"
    } else if d == 7 {
        "7"
    } else if d == 8 {
        "8"
    } else {
        "9"
    }
}

fn append_digits(s: &mut String, n: u64)
    ensures
        final(s)@ == old(s)@ + digits(n as nat),
    decreases n,
{
    if n >= 10 {
        append_digits(s, n / 10);
    }
    s.append(digit_text(n % 10));
    proof {
        if n >= 10 {
            assert(old(s)@ + digits((n / 10) as nat) + seq![digit_char((n % 10) as nat)] =~= old(s)@
                + digits(n as nat));
        } else {
            assert(n % 10 == n);
        }
    }
}

/// `n` written in decimal.
pub fn decimal_text(n: i64) -> (r: String)
    ensures
        r@ == decimal(n as int),
{
    let mut s = String::new();
    if n < 0 {
        s.append("-");
        let magnitude: u64 = (-(n as i128)) as u64;
        append_digits(&mut s, magnitude);
        proof {
            reveal_strlit("-");
        }
    } else {
        append_digits(&mut s, n as u64);
        proof {
            assert(Seq::<char>::empty() + digits(n as nat) =~= digits(n as nat));
        }
    }
    s
}

/// The texts of `parts`, with `sep` between each two neighbours.
pub fn join_texts(parts: &Vec<String>, sep: &str) -> (r: String)
    ensures
        r@ == join(texts(*parts), sep@),
{
    let ghost all = texts(*parts);
    let mut out = String::new();
    let mut i: usize = 0;
    proof {
        assert(all.subrange(0, 0) =~= Seq::<Seq<char>>::empty());
    }
    while i < parts.len()
        invariant
            0 <= i <= parts@.len(),
            all == texts(*parts),
            out@ == join(all.subrange(0, i as int), sep@),
        decreases parts@.len() - i,
    {
        let ghost before = out@;
        if i > 0 {
            out.append(sep);
        }
        out.append(parts[i].as_str());
        proof {
            let prefix = all.subrange(0, i + 1);
            assert(prefix.drop_last() =~= all.subrange(0, i as int));
            if i == 0 {
                assert(out@ =~= prefix[0]);
            } else {
                assert(out@ =~= before + sep@ + prefix.last());
            }
        }
        i = i + 1;
    }
    proof {
        assert(all.subrange(0, i as int) =~= all);
    }
    out
}

/// `[con_id=<id>] scratchpad show`: toggles the scratchpad with that id.
pub open spec fn hide_command(id: i64) -> Seq<char> {
    "[con_id="@ + decimal(id as int) + "] scratchpad show"@
}

/// `[<selector>] scratchpad show`: toggles the target scratchpad.
pub open spec fn show_command(selector: Seq<char>) -> Seq<char> {
    "["@ + selector + "] scratchpad show"@
}

/// `[<selector>] move scratchpad`: parks the target in the scratchpad.
pub open spec fn reparent_command(selector: Seq<char>) -> Seq<char> {
    "["@ + selector + "] move scratchpad"@
}

/// `exec <command line>`: has the manager start a program.
pub open spec fn spawn_command(exec: Seq<char>) -> Seq<char> {
    "exec "@ + exec
}

/// The group that toggles the target; when the toggle is to bring it into
/// view and a resize was asked for, the group also resizes and centres it.
pub open spec fn target_group(selector: Seq<char>, target_showing: bool, resize: Option<Seq<char>>) -> Seq<Seq<char>> {
    if !target_showing && resize is Some {
        seq![show_command(selector), "resize "@ + resize->0, "move position center"@]
    } else {
        seq![show_command(selector)]
    }
}

pub open spec fn hide_group(id: i64) -> Seq<Seq<char>> {
    seq![hide_command(id)]
}

pub open spec fn hide_groups(ids: Seq<i64>) -> Seq<Seq<Seq<char>>> {
    ids.map_values(|id: i64| hide_group(id))
}

pub open spec fn group_texts(groups: Seq<Vec<String>>) -> Seq<Seq<Seq<char>>> {
    groups.map_values(|g: Vec<String>| texts(g))
}

/// The groups of the batch: one that hides each conflicting scratchpad, in
/// order, then the target's group.
pub open spec fn batch_groups(
    non_target_ids: Seq<i64>,
    selector: Seq<char>,
    target_showing: bool,
    resize: Option<Seq<char>>,
) -> Seq<Seq<Seq<char>>> {
    hide_groups(non_target_ids) + seq![target_group(selector, target_showing, resize)]
}

/// The message sent to the manager: fragments of a group joined by `,`,
/// groups joined by `;`.
pub open spec fn batch_text(groups: Seq<Seq<Seq<char>>>) -> Seq<char> {
    join(groups.map_values(|g: Seq<Seq<char>>| join(g, ","@)), ";"@)
}

proof fn lemma_digit_char(d: nat)
    requires
        d < 10,
    ensures
        digit_char(d) as u32 == 48 + d,
{
    if d == 0 {
    } else if d == 1 {
    } else if d == 2 {
    } else if d == 3 {
    } else if d == 4 {
    } else if d == 5 {
    } else if d == 6 {
    } else if d == 7 {
    } else if d == 8 {
    } else {
    }
}

proof fn lemma_digits_shape(n: nat)
    ensures
        digits(n).len() >= 1,
        n >= 10 ==> digits(n).len() >= 2,
        digits(n)[0] != '-',
    decreases n,
{
    if n < 10 {
        lemma_digit_char(n);
    } else {
        lemma_digits_shape(n / 10);
    }
}

proof fn lemma_digits_injective(a: nat, b: nat)
    requires
        digits(a) == digits(b),
    ensures
        a == b,
    decreases a,
{
    lemma_digits_shape(a);
    lemma_digits_shape(b);
    if a < 10 && b < 10 {
        lemma_digit_char(a);
        lemma_digit_char(b);
    } else if a >= 10 && b >= 10 {
        let da = digits(a);
        lemma_digit_char(a % 10);
        lemma_digit_char(b % 10);
        assert(da.last() == digit_char(a % 10));
        assert(da.last() == digit_char(b % 10));
        assert(da.drop_last() =~= digits(a / 10));
        assert(da.drop_last() =~= digits(b / 10));
        lemma_digits_injective(a / 10, b / 10);
    }
}

/// Different integers have different decimal texts.
proof fn lemma_decimal_injective(a: int, b: int)
    requires
        decimal(a) == decimal(b),
    ensures
        a == b,
{
    let da = decimal(a);
    if a < 0 && b < 0 {
        assert(da.drop_first() =~= digits((-a) as nat));
        assert(da.drop_first() =~= digits((-b) as nat));
        lemma_digits_injective((-a) as nat, (-b) as nat);
    } else if a >= 0 && b >= 0 {
        lemma_digits_injective(a as nat, b as nat);
    } else if a < 0 {
        lemma_digits_shape(b as nat);
        assert(da[0] == '-');
    } else {
        lemma_digits_shape(a as nat);
        assert(decimal(b)[0] == '-');
    }
}

/// Hide groups of different ids differ.
pub proof fn lemma_hide_group_injective(a: i64, b: i64)
    requires
        hide_group(a) == hide_group(b),
    ensures
        a == b,
{
    let ha = hide_command(a);
    let hb = hide_command(b);
    assert(ha == hide_group(a)[0]);
    assert(hb == hide_group(b)[0]);
    let p = "[con_id="@.len();
    let c = "] scratchpad show"@.len();
    assert(ha.subrange(p as int, ha.len() - c) =~= decimal(a as int));
    assert(hb.subrange(p as int, hb.len() - c) =~= decimal(b as int));
    lemma_decimal_injective(a as int, b as int);
}

/// A target's group is never a hide group: the target's criteria text starts
/// with `app_id=` or `class=`, a hide group's with `con_id=`.
pub proof fn lemma_target_group_not_hide(
    selector: Seq<char>,
    target_showing: bool,
    resize: Option<Seq<char>>,
    id: i64,
)
    requires
        selector.len() >= 2,
        selector[1] == 'p' || selector[1] == 'l',
    ensures
        target_group(selector, target_showing, resize) != hide_group(id),
{
    let tg = target_group(selector, target_showing, resize);
    if tg.len() == 1 {
        reveal_strlit("[con_id=");
        reveal_strlit("[");
        assert(tg[0][2] == selector[1]);
        assert(hide_group(id)[0][2] == 'o');
    }
}

/// The message is a function of what the batch is built from: the same ids,
/// selector, flag and resize argument always give the same message.
pub proof fn lemma_batch_deterministic(
    ids1: Seq<i64>,
    ids2: Seq<i64>,
    selector1: Seq<char>,
    selector2: Seq<char>,
    showing1: bool,
    showing2: bool,
    resize1: Option<Seq<char>>,
    resize2: Option<Seq<char>>,
)
    requires
        ids1 == ids2,
        selector1 == selector2,
        showing1 == showing2,
        resize1 == resize2,
    ensures
        batch_text(batch_groups(ids1, selector1, showing1, resize1)) == batch_text(
            batch_groups(ids2, selector2, showing2, resize2),
        ),
{
}

/// An ordered list of command groups, sent to the manager as one message.
#[derive(Debug)]
pub struct CommandBatch {
    pub groups: Vec<Vec<String>>,
}

impl View for CommandBatch {
    type V = Seq<Seq<Seq<char>>>;

    open spec fn view(&self) -> Seq<Seq<Seq<char>>> {
        group_texts(self.groups@)
    }
}

fn hide_cmd(id: i64) -> (r: String)
    ensures
        r@ == hide_command(id),
{
    let mut s = String::from_str("[con_id=");
    let digits = decimal_text(id);
    s.append(digits.as_str());
    s.append("] scratchpad show");
    s
}

fn selector_cmd(selector: &str, action: &str) -> (r: String)
    ensures
        r@ == "["@ + selector@ + "] "@ + action@,
{
    let mut s = String::from_str("[");
    s.append(selector);
    s.append("] ");
    s.append(action);
    s
}

/// The command that parks the target in the scratchpad.
pub fn reparent_cmd(selector: &str) -> (r: String)
    ensures
        r@ == reparent_command(selector@),
{
    let r = selector_cmd(selector, "move scratchpad");
    proof {
        reveal_strlit("] move scratchpad");
        reveal_strlit("] ");
        reveal_strlit("move scratchpad");
        assert(r@ =~= reparent_command(selector@));
    }
    r
}

/// The command that has the manager start `exec`.
pub fn spawn_cmd(exec: &str) -> (r: String)
    ensures
        r@ == spawn_command(exec@),
{
    let mut s = String::from_str("exec ");
    s.append(exec);
    s
}

impl CommandBatch {
    /// Builds the batch: a group hiding each of `non_target_ids`, in order,
    /// then the group toggling the target, with the resize fragments when the
    /// target is not showing and `resize` is given.
    pub fn build(
        non_target_ids: &Vec<i64>,
        selector: &str,
        target_showing: bool,
        resize: &Option<String>,
    ) -> (r: CommandBatch)
        ensures
            r@ == batch_groups(non_target_ids@, selector@, target_showing, text_of(*resize)),
    {
        let mut groups: Vec<Vec<String>> = Vec::new();
        let mut i: usize = 0;
        while i < non_target_ids.len()
            invariant
                0 <= i <= non_target_ids@.len(),
                groups@.len() == i,
                group_texts(groups@) == hide_groups(non_target_ids@.subrange(0, i as int)),
            decreases non_target_ids@.len() - i,
        {
            let mut group: Vec<String> = Vec::new();
            group.push(hide_cmd(non_target_ids[i]));
            proof {
                assert(texts(group) =~= hide_group(non_target_ids@[i as int]));
            }
            let ghost prev = groups@;
            groups.push(group);
            proof {
                assert(groups@ == prev.push(group));
                assert(forall|k: int| 0 <= k < i ==> groups@[k] == prev[k]);
                assert forall|k: int| 0 <= k < i implies texts(#[trigger] prev[k]) == hide_group(
                    non_target_ids@[k],
                ) by {
                    assert(group_texts(prev)[k] == texts(prev[k]));
                    assert(hide_groups(non_target_ids@.subrange(0, i as int))[k] == hide_group(
                        non_target_ids@[k],
                    ));
                }
                assert(group_texts(groups@) =~= hide_groups(non_target_ids@.subrange(0, i + 1)));
            }
            i = i + 1;
        }
        let mut target: Vec<String> = Vec::new();
        let show = selector_cmd(selector, "scratchpad show");
        proof {
            reveal_strlit("] scratchpad show");
            reveal_strlit("] ");
            reveal_strlit("scratchpad show");
            assert(show@ =~= show_command(selector@));
        }
        target.push(show);
        if !target_showing {
            match resize {
                Some(arg) => {
                    let mut r = String::from_str("resize ");
                    r.append(arg.as_str());
                    target.push(r);
                    target.push(String::from_str("move position center"));
                },
                None => {},
            }
        }
        proof {
            assert(texts(target) =~= target_group(selector@, target_showing, text_of(*resize)));
        }
        groups.push(target);
        proof {
            assert(non_target_ids@.subrange(0, i as int) =~= non_target_ids@);
            assert(group_texts(groups@) =~= batch_groups(
                non_target_ids@,
                selector@,
                target_showing,
                text_of(*resize),
            ));
        }
        CommandBatch { groups }
    }

    /// The batch as one message to the manager.
    pub fn render(&self) -> (r: String)
        ensures
            r@ == batch_text(self@),
    {
        let ghost all = self@.map_values(|g: Seq<Seq<char>>| join(g, ","@));
        let mut out = String::new();
        let mut i: usize = 0;
        proof {
            assert(all.subrange(0, 0) =~= Seq::<Seq<char>>::empty());
        }
        while i < self.groups.len()
            invariant
                0 <= i <= self.groups@.len(),
                all == self@.map_values(|g: Seq<Seq<char>>| join(g, ","@)),
                out@ == join(all.subrange(0, i as int), ";"@),
            decreases self.groups@.len() - i,
        {
            let ghost before = out@;
            if i > 0 {
                out.append(";");
            }
            let group = join_texts(&self.groups[i], ",");
            out.append(group.as_str());
            proof {
                let prefix = all.subrange(0, i + 1);
                assert(prefix.drop_last() =~= all.subrange(0, i as int));
                assert(group@ == all[i as int]);
                if i == 0 {
                    assert(out@ =~= prefix[0]);
                } else {
                    assert(out@ =~= before + ";"@ + prefix.last());
                }
            }
            i = i + 1;
        }
        proof {
            assert(all.subrange(0, i as int) =~= all);
        }
        out
    }
}

} // verus!
