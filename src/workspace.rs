use vstd::prelude::*;
use vstd::string::StringSliceAdditionalSpecFns;

use crate::text::{
    has_prefix, parse_u8, parse_u8_spec, space_len, space_len_at, starts_with, trim, trim_bounds,
};

verus! {

/// What a workspace event does.
#[derive(Clone, Copy, Debug, PartialEq, Eq, Structural)]
pub enum WorkspaceAction {
    /// `workspace>>N`: N becomes the active workspace and is occupied.
    Focus,
    /// `createworkspace>>N`: N is occupied.
    Create,
    /// `destroyworkspace>>N`: N is no longer occupied.
    Destroy,
}

/// A recognised workspace event; `workspace` is from 1 to 10.
#[derive(Clone, Copy, Debug, PartialEq, Eq, Structural)]
pub struct WorkspaceEvent {
    pub action: WorkspaceAction,
    pub workspace: u8,
}

/// The highest workspace the bar shows.
pub const MAX_WORKSPACE: u8 = 10;

/// "workspace>>"
pub open spec fn focus_tag() -> Seq<u8> {
    seq![119u8, 111, 114, 107, 115, 112, 97, 99, 101, 62, 62]
}

/// "createworkspace>>"
pub open spec fn create_tag() -> Seq<u8> {
    seq![99u8, 114, 101, 97, 116, 101] + focus_tag()
}

/// "destroyworkspace>>"
pub open spec fn destroy_tag() -> Seq<u8> {
    seq![100u8, 101, 115, 116, 114, 111, 121] + focus_tag()
}

/// An event for a workspace from 1 to 10, if `n` names one.
pub open spec fn event_for(action: WorkspaceAction, n: Option<u8>) -> Option<WorkspaceEvent> {
    match n {
        Some(w) => if 1 <= w <= MAX_WORKSPACE {
            Some(WorkspaceEvent { action, workspace: w })
        } else {
            None
        },
        None => None,
    }
}

/// The event a line of the event stream carries, once surrounding
/// whitespace is trimmed: one of the three tags followed by a workspace
/// from 1 to 10. Anything else is ignored.
pub open spec fn parse_event_spec(line: Seq<u8>) -> Option<WorkspaceEvent> {
    let t = trim(line);
    if has_prefix(t, focus_tag()) {
        event_for(WorkspaceAction::Focus, parse_u8_spec(t.skip(11)))
    } else if has_prefix(t, create_tag()) {
        event_for(WorkspaceAction::Create, parse_u8_spec(t.skip(17)))
    } else if has_prefix(t, destroy_tag()) {
        event_for(WorkspaceAction::Destroy, parse_u8_spec(t.skip(18)))
    } else {
        None
    }
}

fn make_event(action: WorkspaceAction, n: Option<u8>) -> (r: Option<WorkspaceEvent>)
    ensures
        r == event_for(action, n),
{
    match n {
        Some(w) => if 1 <= w && w <= MAX_WORKSPACE {
            Some(WorkspaceEvent { action, workspace: w })
        } else {
            None
        },
        None => None,
    }
}

/// Reads one line of the window manager's event stream.
pub fn parse_event(line: &str) -> (r: Option<WorkspaceEvent>)
    ensures
        r == parse_event_spec(line.spec_bytes()),
{
    let b = line.as_bytes();
    let (s, e) = trim_bounds(b);
    let t = &b[s..e];
    let focus: [u8; 11] = [119, 111, 114, 107, 115, 112, 97, 99, 101, 62, 62];
    let create: [u8; 17] = [99, 114, 101, 97, 116, 101, 119, 111, 114, 107, 115, 112, 97, 99, 101, 62, 62];
    let destroy: [u8; 18] = [
        100, 101, 115, 116, 114, 111, 121, 119, 111, 114, 107, 115, 112, 97, 99, 101, 62, 62,
    ];
    assert(focus@ =~= focus_tag());
    assert(create@ =~= create_tag());
    assert(destroy@ =~= destroy_tag());
    if starts_with(t, focus.as_slice()) {
        make_event(WorkspaceAction::Focus, parse_u8(&t[11..t.len()]))
    } else if starts_with(t, create.as_slice()) {
        make_event(WorkspaceAction::Create, parse_u8(&t[17..t.len()]))
    } else if starts_with(t, destroy.as_slice()) {
        make_event(WorkspaceAction::Destroy, parse_u8(&t[18..t.len()]))
    } else {
        None
    }
}

/// "workspace ID ", which precedes a workspace number in query output.
pub open spec fn id_tag() -> Seq<u8> {
    seq![119u8, 111, 114, 107, 115, 112, 97, 99, 101, 32, 73, 68, 32]
}

/// First position from `i` on that is not whitespace within the line.
pub open spec fn skip_inline(b: Seq<u8>, i: int) -> int
    decreases b.len() - i,
{
    if 0 <= i < b.len() && b[i] != 10 && space_len(b.skip(i)) > 0 {
        skip_inline(b, i + space_len(b.skip(i)))
    } else {
        i
    }
}

/// End of the run of non-whitespace text that starts at `i`.
pub open spec fn token_end(b: Seq<u8>, i: int) -> int
    decreases b.len() - i,
{
    if 0 <= i < b.len() && space_len(b.skip(i)) == 0 {
        token_end(b, i + 1)
    } else {
        i
    }
}

/// The first word at or after `i` on the same line.
pub open spec fn token_from(b: Seq<u8>, i: int) -> Seq<u8> {
    b.subrange(skip_inline(b, i), token_end(b, skip_inline(b, i)))
}

/// The workspace from 1 to 10 that the word after "workspace ID " at `i` names.
pub open spec fn id_at(b: Seq<u8>, i: int) -> Option<u8> {
    if has_prefix(b.skip(i), id_tag()) {
        match parse_u8_spec(token_from(b, i + 13)) {
            Some(w) => if 1 <= w <= MAX_WORKSPACE {
                Some(w)
            } else {
                None
            },
            None => None,
        }
    } else {
        None
    }
}

/// First position from `i` on where "workspace ID " occurs.
pub open spec fn find_id_tag(b: Seq<u8>, i: int) -> Option<int>
    decreases b.len() - i,
{
    if i < 0 || i + 13 > b.len() {
        None
    } else if has_prefix(b.skip(i), id_tag()) {
        Some(i)
    } else {
        find_id_tag(b, i + 1)
    }
}

/// The active workspace in the output of the active-workspace query: the
/// word after the first "workspace ID ", if it names a workspace from 1 to 10.
pub open spec fn active_workspace_spec(b: Seq<u8>) -> Option<u8> {
    match find_id_tag(b, 0) {
        Some(i) => id_at(b, i),
        None => None,
    }
}

pub open spec fn line_start(b: Seq<u8>, i: int) -> bool {
    i == 0 || (0 < i <= b.len() && b[i - 1] == 10)
}

/// Whether some line before position `end` opens with "workspace ID " and names workspace `n`.
pub open spec fn listed_before(b: Seq<u8>, n: int, end: int) -> bool {
    exists|j: int| 0 <= j < end && line_start(b, j) && #[trigger] id_at(b, j) == Some(n as u8)
}

fn skip_inline_at(b: &[u8], i: usize) -> (r: usize)
    requires
        i <= b@.len(),
    ensures
        r == skip_inline(b@, i as int),
        i <= r <= b@.len(),
{
    let n = b.len();
    let mut k = i;
    assert(b@.subrange(k as int, n as int) =~= b@.skip(k as int));
    let mut step = if k < n && b[k] != 10 { space_len_at(b, k, n) } else { 0 };
    while step > 0
        invariant
            n == b@.len(),
            i <= k <= n,
            step == (if k < n && b@[k as int] != 10 { space_len(b@.skip(k as int)) } else { 0 }),
            skip_inline(b@, i as int) == skip_inline(b@, k as int),
        decreases n - k,
    {
        k = k + step;
        assert(b@.subrange(k as int, n as int) =~= b@.skip(k as int));
        step = if k < n && b[k] != 10 { space_len_at(b, k, n) } else { 0 };
    }
    k
}

fn token_end_at(b: &[u8], i: usize) -> (r: usize)
    requires
        i <= b@.len(),
    ensures
        r == token_end(b@, i as int),
        i <= r <= b@.len(),
{
    let n = b.len();
    let mut k = i;
    while k < n && space_len_at(b, k, n) == 0
        invariant
            n == b@.len(),
            i <= k <= n,
            token_end(b@, i as int) == token_end(b@, k as int),
        decreases n - k,
    {
        assert(b@.subrange(k as int, n as int) =~= b@.skip(k as int));
        k = k + 1;
    }
    if k < n {
        assert(b@.subrange(k as int, n as int) =~= b@.skip(k as int));
    }
    k
}

/// The workspace named after "workspace ID " at `i`.
fn workspace_id_at(b: &[u8], i: usize) -> (r: Option<u8>)
    requires
        i <= b@.len(),
    ensures
        r == id_at(b@, i as int),
{
    let tag: [u8; 13] = [119, 111, 114, 107, 115, 112, 97, 99, 101, 32, 73, 68, 32];
    assert(tag@ =~= id_tag());
    let rest = &b[i..b.len()];
    assert(rest@ =~= b@.skip(i as int));
    if !starts_with(rest, tag.as_slice()) {
        return None;
    }
    let s = skip_inline_at(b, i + 13);
    let e = token_end_at(b, s);
    match parse_u8(&b[s..e]) {
        Some(w) => if 1 <= w && w <= MAX_WORKSPACE {
            Some(w)
        } else {
            None
        },
        None => None,
    }
}

/// Reads the active workspace from the output of the active-workspace query.
pub fn parse_active_workspace(out: &str) -> (r: Option<u8>)
    ensures
        r == active_workspace_spec(out.spec_bytes()),
{
    let b = out.as_bytes();
    let n = b.len();
    let mut i: usize = 0;
    while i < n && n - i >= 13
        invariant
            n == b@.len(),
            b@ == out.spec_bytes(),
            i <= n,
            find_id_tag(b@, 0) == find_id_tag(b@, i as int),
        decreases n - i,
    {
        let tag: [u8; 13] = [119, 111, 114, 107, 115, 112, 97, 99, 101, 32, 73, 68, 32];
        assert(tag@ =~= id_tag());
        let rest = &b[i..n];
        assert(rest@ =~= b@.skip(i as int));
        if starts_with(rest, tag.as_slice()) {
            assert(find_id_tag(b@, i as int) == Some(i as int));
            return workspace_id_at(b, i);
        }
        i = i + 1;
    }
    None
}

/// Reads which workspaces exist from the output of the workspace-list
/// query: those named on a line that opens with "workspace ID ".
pub fn parse_workspace_list(out: &str) -> (r: [bool; 10])
    ensures
        forall|k: int| 0 <= k < 10 ==> r@[k] == listed_before(out.spec_bytes(), k + 1, out.spec_bytes().len() as int),
{
    let b = out.as_bytes();
    let n = b.len();
    let mut flags: Vec<bool> = Vec::new();
    let mut k: usize = 0;
    while k < 10
        invariant
            k <= 10,
            flags@ =~= Seq::new(k as nat, |j: int| false),
        decreases 10 - k,
    {
        flags.push(false);
        k = k + 1;
    }
    let mut i: usize = 0;
    while i < n
        invariant
            n == b@.len(),
            b@ == out.spec_bytes(),
            i <= n,
            flags@.len() == 10,
            forall|k: int| 0 <= k < 10 ==> flags@[k] == listed_before(b@, k + 1, i as int),
        decreases n - i,
    {
        let at_line_start = i == 0 || b[i - 1] == 10;
        let ghost before = flags@;
        if at_line_start {
            let found = workspace_id_at(b, i);
            if let Some(w) = found {
                flags.set((w - 1) as usize, true);
            }
            proof {
                assert forall|k: int| 0 <= k < 10 implies flags@[k] == listed_before(b@, k + 1, i + 1) by {
                    if found == Some((k + 1) as u8) {
                        assert(id_at(b@, i as int) == Some((k + 1) as u8));
                    }
                    if listed_before(b@, k + 1, i + 1) && !listed_before(b@, k + 1, i as int) {
                        let j = choose|j: int| 0 <= j < i + 1 && line_start(b@, j) && #[trigger] id_at(b@, j) == Some((k + 1) as u8);
                        assert(j == i);
                    }
                }
            }
        } else {
            proof {
                assert forall|k: int| 0 <= k < 10 implies flags@[k] == listed_before(b@, k + 1, i + 1) by {
                    if listed_before(b@, k + 1, i + 1) && !listed_before(b@, k + 1, i as int) {
                        let j = choose|j: int| 0 <= j < i + 1 && line_start(b@, j) && #[trigger] id_at(b@, j) == Some((k + 1) as u8);
                        assert(j == i);
                    }
                }
            }
        }
        i = i + 1;
    }
    [flags[0], flags[1], flags[2], flags[3], flags[4], flags[5], flags[6], flags[7], flags[8], flags[9]]
}

} // verus!
