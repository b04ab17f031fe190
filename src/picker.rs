use vstd::prelude::*;

verus! {

/// What the choice of a working directory needs to know of a worktree.
#[derive(Debug)]
pub struct WorktreeInfo {
    pub is_visible: bool,
    pub is_local: bool,
    pub root_is_dir: bool,
    pub contains_active_entry: bool,
    pub abs_path: String,
}

/// A worktree can host a runnable when it is visible, local, and its root is
/// a directory.
pub open spec fn is_available(w: WorktreeInfo) -> bool {
    w.is_visible && w.is_local && w.root_is_dir
}

/// The worktrees of `ws` that can host a runnable, in order.
pub open spec fn available(ws: Seq<WorktreeInfo>) -> Seq<WorktreeInfo>
    decreases ws.len(),
{
    if ws.len() == 0 {
        ws
    } else if is_available(ws.last()) {
        available(ws.drop_last()).push(ws.last())
    } else {
        available(ws.drop_last())
    }
}

/// The worktrees of `ws` that hold the active entry, in order.
pub open spec fn holding_active(ws: Seq<WorktreeInfo>) -> Seq<WorktreeInfo>
    decreases ws.len(),
{
    if ws.len() == 0 {
        ws
    } else if ws.last().contains_active_entry {
        holding_active(ws.drop_last()).push(ws.last())
    } else {
        holding_active(ws.drop_last())
    }
}

/// The reason no working directory could be chosen.
#[derive(Clone, Copy, Debug, PartialEq, Eq, Structural)]
pub enum CwdError {
    /// Several worktrees can host the runnable and none holds the active entry.
    AmbiguousWorktree,
}

/// The working directory for a runnable: none when no worktree can host it,
/// the only one when there is one, and otherwise the first of them that holds
/// the active entry, or an error when none does.
pub open spec fn cwd_spec(ws: Seq<WorktreeInfo>) -> Result<Option<Seq<char>>, CwdError> {
    let av = available(ws);
    if av.len() == 0 {
        Ok(None)
    } else if av.len() == 1 {
        Ok(Some(av[0].abs_path@))
    } else {
        let holding = holding_active(av);
        if holding.len() == 0 {
            Err(CwdError::AmbiguousWorktree)
        } else {
            Ok(Some(holding[0].abs_path@))
        }
    }
}

pub open spec fn cwd_view(r: Result<Option<String>, CwdError>) -> Result<Option<Seq<char>>, CwdError> {
    match r {
        Ok(Some(p)) => Ok(Some(p@)),
        Ok(None) => Ok(None),
        Err(e) => Err(e),
    }
}

/// Chooses the working directory of a runnable among the worktrees `ws`.
pub fn runnable_cwd(ws: &Vec<WorktreeInfo>) -> (r: Result<Option<String>, CwdError>)
    ensures
        cwd_view(r) == cwd_spec(ws@),
{
    let mut count: usize = 0;
    let mut first: usize = 0;
    let mut first_holding: Option<usize> = None;
    let mut i: usize = 0;
    while i < ws.len()
        invariant
            i <= ws@.len(),
            count == available(ws@.take(i as int)).len(),
            count <= i,
            count > 0 ==> first < i && ws@[first as int] == available(ws@.take(i as int))[0],
            first_holding.is_none() == (holding_active(available(ws@.take(i as int))).len() == 0),
            first_holding.is_some() ==> first_holding.unwrap() < i && ws@[first_holding.unwrap() as int]
                == holding_active(available(ws@.take(i as int)))[0],
        decreases ws@.len() - i,
    {
        proof {
            assert(ws@.take(i as int + 1).drop_last() =~= ws@.take(i as int));
            assert(ws@.take(i as int + 1).last() == ws@[i as int]);
        }
        let w = &ws[i];
        if w.is_visible && w.is_local && w.root_is_dir {
            if count == 0 {
                first = i;
            }
            if first_holding.is_none() && w.contains_active_entry {
                first_holding = Some(i);
            }
            count = count + 1;
            proof {
                let before = available(ws@.take(i as int));
                let after = available(ws@.take(i as int + 1));
                assert(after =~= before.push(ws@[i as int]));
                if ws@[i as int].contains_active_entry {
                    assert(before.push(ws@[i as int]).drop_last() =~= before);
                    assert(holding_active(after) =~= holding_active(before).push(ws@[i as int]));
                } else {
                    assert(before.push(ws@[i as int]).drop_last() =~= before);
                    assert(holding_active(after) =~= holding_active(before));
                }
            }
        } else {
            proof {
                assert(available(ws@.take(i as int + 1)) =~= available(ws@.take(i as int)));
            }
        }
        i = i + 1;
    }
    assert(ws@.take(ws@.len() as int) =~= ws@);
    if count == 0 {
        Ok(None)
    } else if count == 1 {
        Ok(Some(ws[first].abs_path.clone()))
    } else {
        match first_holding {
            None => Err(CwdError::AmbiguousWorktree),
            Some(j) => Ok(Some(ws[j].abs_path.clone())),
        }
    }
}

/// The selection of a picker over the candidates that matched a query: the
/// candidate index of each match, best first, and the selected match.
#[derive(Debug)]
pub struct MatchSelection {
    matches: Vec<usize>,
    selected_index: usize,
}

impl MatchSelection {
    pub closed spec fn candidates(&self) -> Seq<usize> {
        self.matches@
    }

    pub closed spec fn selected(&self) -> usize {
        self.selected_index
    }

    /// No matches, the first selected.
    pub fn new() -> (r: MatchSelection)
        ensures
            r.candidates().len() == 0,
            r.selected() == 0,
    {
        MatchSelection { matches: Vec::new(), selected_index: 0 }
    }

    pub fn match_count(&self) -> (r: usize)
        ensures
            r == self.candidates().len(),
    {
        self.matches.len()
    }

    pub fn selected_index(&self) -> (r: usize)
        ensures
            r == self.selected(),
    {
        self.selected_index
    }

    pub fn set_selected_index(&mut self, ix: usize)
        ensures
            final(self).selected() == ix,
            final(self).candidates() == old(self).candidates(),
    {
        self.selected_index = ix;
    }

    /// Takes the matches of a new query; the selection stays where it was,
    /// moved back to the last match when it is past the end, and to the first
    /// when nothing matched.
    pub fn update_matches(&mut self, matches: Vec<usize>)
        ensures
            final(self).candidates() == matches@,
            final(self).selected() == if matches@.len() == 0 {
                0
            } else if old(self).selected() < matches@.len() {
                old(self).selected()
            } else {
                (matches@.len() - 1) as usize
            },
    {
        self.matches = matches;
        if self.matches.len() == 0 {
            self.selected_index = 0;
        } else if self.selected_index >= self.matches.len() {
            self.selected_index = self.matches.len() - 1;
        }
    }

    /// The candidate of the selected match, when the selection is on a match.
    pub fn confirm(&self) -> (r: Option<usize>)
        ensures
            r == if self.selected() < self.candidates().len() {
                Some(self.candidates()[self.selected() as int])
            } else {
                None
            },
    {
        if self.selected_index < self.matches.len() {
            Some(self.matches[self.selected_index])
        } else {
            None
        }
    }
}

} // verus!
