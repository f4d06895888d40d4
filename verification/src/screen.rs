//! What the terminal shows: one column of posts for each channel, the column
//! in focus and the post selected in it, and what each key does to them.
use crate::api::ComAtprotoSyncSubscribereposCommit;
use crate::filter::clone_strings;
use crate::text::{from_chars, joined, split, split_nth, to_chars};
use crate::time::Timestamp;
use vstd::prelude::*;

verus! {

/// Posts that a column holds unless set otherwise.
pub const DEFAULT_MAX_LEN: usize = 100;

/// A commit as a column lists it.
#[derive(Debug, Clone, PartialEq, Eq)]
pub struct Post {
    pub create_at: Timestamp,
    pub did: String,
    pub handle: Option<String>,
    pub text: Vec<String>,
    pub blobs: Vec<String>,
    pub path: Option<String>,
}

/// Every text of `s` is empty.
pub open spec fn all_empty(s: Seq<Seq<char>>) -> bool {
    forall|i: int| 0 <= i < s.len() ==> (#[trigger] s[i]).len() == 0
}

/// The web address of the post of `handle` whose record has the path `path`:
/// by the part of the path after its first slash.
pub open spec fn post_url(handle: Seq<char>, path: Seq<char>) -> Option<Seq<char>> {
    match split_nth(path, '/', 1) {
        Some(key) => Some("https://bsky.app/profile/"@ + handle + "/post/"@ + key),
        None => None,
    }
}

impl Post {
    /// The post that lists a commit: its time and author, the texts of the
    /// posts it creates, the addresses of its attachments, and the path of its
    /// first post. The handle of the author is not known yet.
    pub fn from(value: &ComAtprotoSyncSubscribereposCommit) -> (r: Post)
        ensures
            r.create_at == value.time,
            r.did@ == value.repo@,
            r.handle is None,
            r.blobs.deep_view() == value.blobs.deep_view(),
            r.text.len() == value.created_positions().len(),
            forall|k: int|
                0 <= k < r.text.len() ==> crate::event::resolved(
                    value.ops[value.created_positions()[k]],
                    value.blocks@,
                ).unwrap().text_field("text"@) == Some((#[trigger] r.text[k])@),
            match r.path {
                Some(p) => value.post_positions().len() > 0 && p@
                    == value.ops[value.post_positions()[0]].path@,
                None => value.post_positions().len() == 0,
            },
    {
        Post {
            create_at: value.time,
            did: value.repo.clone(),
            handle: None,
            text: value.get_post_text(),
            blobs: clone_strings(&value.blobs),
            path: value.get_post_path(),
        }
    }

    /// Whether there is nothing to show: no text that is not empty, and no
    /// attachment.
    pub fn is_empty(&self) -> (r: bool)
        ensures
            r == (all_empty(self.text.deep_view()) && self.blobs.len() == 0),
    {
        let mut i: usize = 0;
        while i < self.text.len()
            invariant
                i <= self.text.len(),
                forall|k: int| 0 <= k < i ==> (#[trigger] self.text.deep_view()[k]).len() == 0,
            decreases self.text.len() - i,
        {
            if !self.text[i].as_str().is_empty() {
                assert(self.text.deep_view()[i as int].len() != 0);
                return false;
            }
            i += 1;
        }
        self.blobs.len() == 0
    }

    /// The name to show for the author: the handle where it is known, else
    /// the DID.
    pub fn get_name(&self) -> (r: String)
        ensures
            r@ == match self.handle {
                Some(h) => h@,
                None => self.did@,
            },
    {
        match &self.handle {
            Some(h) => h.clone(),
            None => self.did.clone(),
        }
    }

    /// The web address of the post, where the handle of the author and the
    /// path of the record are known.
    pub fn url(&self) -> (r: Option<String>)
        ensures
            r.deep_view() == match (self.handle, self.path) {
                (Some(h), Some(p)) => post_url(h@, p@),
                _ => None,
            },
    {
        let handle = match &self.handle {
            Some(h) => h,
            None => return None,
        };
        let path = match &self.path {
            Some(p) => p,
            None => return None,
        };
        let parts = split(&to_chars(path.as_str()), '/');
        if parts.len() < 2 {
            return None;
        }
        let key = from_chars(&parts[1]);
        proof {
            assert(parts.deep_view()[1] =~= parts[1]@);
        }
        let mut out = joined("https://bsky.app/profile/", handle.as_str());
        out.append("/post/");
        out.append(key.as_str());
        Some(out)
    }
}

/// One column: the posts of a channel, newest first, and the post selected.
#[derive(Debug, Clone, PartialEq, Eq)]
pub struct Column {
    pub name: String,
    pub posts: Vec<Post>,
    pub selected: Option<usize>,
}

/// The selection after a step up: from the first post to none, from any
/// other post to the one before, from none to the last post.
pub open spec fn selection_up(selected: Option<usize>, len: nat) -> Option<usize> {
    match selected {
        Some(s) => if s == 0 {
            None
        } else {
            Some((s - 1) as usize)
        },
        None => if len > 0 {
            Some((len - 1) as usize)
        } else {
            None
        },
    }
}

/// The selection after a step down: from the last post or beyond to none,
/// from any other post to the next, from none to the first post.
pub open spec fn selection_down(selected: Option<usize>, len: nat) -> Option<usize> {
    match selected {
        Some(s) => if s + 1 >= len {
            None
        } else {
            Some((s + 1) as usize)
        },
        None => if len > 0 {
            Some(0usize)
        } else {
            None
        },
    }
}

impl Column {
    /// An empty column.
    pub fn new(name: &str) -> (r: Column)
        ensures
            r.name@ == name@,
            r.posts@.len() == 0,
            r.selected is None,
    {
        Column { name: name.to_string(), posts: Vec::new(), selected: None }
    }

    /// Puts a post at the top of the column and keeps at most `max_len`
    /// posts. The selection stays on the post it was on, which is now one
    /// further down.
    pub fn push(&mut self, post: Post, max_len: usize)
        ensures
            final(self).name == old(self).name,
            final(self).posts@ == (seq![post] + old(self).posts@).take(
                if max_len <= old(self).posts@.len() {
                    max_len as int
                } else {
                    (old(self).posts@.len() + 1) as int
                },
            ),
            final(self).selected == match old(self).selected {
                Some(s) => Some(
                    if s < usize::MAX {
                        (s + 1) as usize
                    } else {
                        s
                    },
                ),
                None => None,
            },
    {
        let ghost before = self.posts@;
        self.posts.insert(0, post);
        assert(self.posts@ =~= seq![post] + before);
        if self.posts.len() > max_len {
            self.posts.truncate(max_len);
        }
        assert(self.posts@ =~= (seq![post] + before).take(
            if max_len <= before.len() {
                max_len as int
            } else {
                (before.len() + 1) as int
            },
        ));
        self.selected = match self.selected {
            Some(s) => Some(
                if s < usize::MAX {
                    s + 1
                } else {
                    s
                },
            ),
            None => None,
        };
    }

    /// Moves the selection one post up.
    pub fn up(&mut self)
        ensures
            final(self).name == old(self).name,
            final(self).posts == old(self).posts,
            final(self).selected == selection_up(old(self).selected, old(self).posts@.len()),
    {
        self.selected = match self.selected {
            Some(s) => if s == 0 {
                None
            } else {
                Some(s - 1)
            },
            None => if self.posts.len() > 0 {
                Some(self.posts.len() - 1)
            } else {
                None
            },
        };
    }

    /// Moves the selection one post down.
    pub fn down(&mut self)
        ensures
            final(self).name == old(self).name,
            final(self).posts == old(self).posts,
            final(self).selected == selection_down(old(self).selected, old(self).posts@.len()),
    {
        self.selected = match self.selected {
            Some(s) => if s >= self.posts.len() || s + 1 >= self.posts.len() {
                None
            } else {
                Some(s + 1)
            },
            None => if self.posts.len() > 0 {
                Some(0)
            } else {
                None
            },
        };
    }

    /// The post selected, if one is and it is still there.
    pub fn current(&self) -> (r: Option<&Post>)
        ensures
            match r {
                Some(p) => self.selected matches Some(s) && s < self.posts@.len() && *p
                    == self.posts@[s as int],
                None => !(self.selected matches Some(s) && s < self.posts@.len()),
            },
    {
        match self.selected {
            Some(s) => if s < self.posts.len() {
                Some(&self.posts[s])
            } else {
                None
            },
            None => None,
        }
    }
}

/// The column in focus after a step to the right, around the end.
pub open spec fn focus_right(focus: usize, count: nat) -> usize {
    if focus + 1 >= count {
        0
    } else {
        (focus + 1) as usize
    }
}

/// The column in focus after a step to the left, around the start.
pub open spec fn focus_left(focus: usize, count: nat) -> usize {
    if focus == 0 {
        if count == 0 {
            0
        } else {
            (count - 1) as usize
        }
    } else {
        (focus - 1) as usize
    }
}

/// The columns side by side, and the one in focus.
#[derive(Debug, Clone, PartialEq, Eq)]
pub struct Screen {
    pub columns: Vec<Column>,
    pub focus: usize,
    pub max_len: usize,
}

impl Screen {
    /// A screen of empty columns with the given names, the first in focus.
    pub fn new(names: &Vec<String>, max_len: usize) -> (r: Screen)
        ensures
            r.focus == 0,
            r.max_len == max_len,
            r.columns.len() == names.len(),
            forall|i: int|
                0 <= i < names.len() ==> (#[trigger] r.columns[i]).name@ == names[i]@
                    && r.columns[i].posts@.len() == 0 && r.columns[i].selected is None,
    {
        let mut columns: Vec<Column> = Vec::new();
        let mut i: usize = 0;
        while i < names.len()
            invariant
                i <= names.len(),
                columns.len() == i,
                forall|k: int|
                    0 <= k < i ==> (#[trigger] columns[k]).name@ == names[k]@
                        && columns[k].posts@.len() == 0 && columns[k].selected is None,
            decreases names.len() - i,
        {
            columns.push(Column::new(names[i].as_str()));
            i += 1;
        }
        Screen { columns, focus: 0, max_len }
    }

    /// Takes the selection off the column in focus.
    fn unselect_focused(&mut self)
        ensures
            final(self).focus == old(self).focus,
            final(self).max_len == old(self).max_len,
            final(self).columns.len() == old(self).columns.len(),
            forall|i: int|
                0 <= i < old(self).columns.len() ==> (#[trigger] final(self).columns[i]).name
                    == old(self).columns[i].name && final(self).columns[i].posts
                    == old(self).columns[i].posts && final(self).columns[i].selected == if i
                    == old(self).focus {
                    None
                } else {
                    old(self).columns[i].selected
                },
    {
        if self.focus < self.columns.len() {
            let mut column = self.columns.remove(self.focus);
            column.selected = None;
            self.columns.insert(self.focus, column);
        }
    }

    /// Moves the focus one column to the right, around the end; the column
    /// that was in focus loses its selection.
    pub fn right(&mut self)
        ensures
            final(self).focus == focus_right(old(self).focus, old(self).columns@.len()),
            final(self).max_len == old(self).max_len,
            final(self).columns.len() == old(self).columns.len(),
            forall|i: int|
                0 <= i < old(self).columns.len() ==> (#[trigger] final(self).columns[i]).name
                    == old(self).columns[i].name && final(self).columns[i].posts
                    == old(self).columns[i].posts && final(self).columns[i].selected == if i
                    == old(self).focus {
                    None
                } else {
                    old(self).columns[i].selected
                },
    {
        self.unselect_focused();
        self.focus = if self.focus >= self.columns.len() || self.focus + 1 >= self.columns.len() {
            0
        } else {
            self.focus + 1
        };
    }

    /// Moves the focus one column to the left, around the start; the column
    /// that was in focus loses its selection.
    pub fn left(&mut self)
        ensures
            final(self).focus == focus_left(old(self).focus, old(self).columns@.len()),
            final(self).max_len == old(self).max_len,
            final(self).columns.len() == old(self).columns.len(),
            forall|i: int|
                0 <= i < old(self).columns.len() ==> (#[trigger] final(self).columns[i]).name
                    == old(self).columns[i].name && final(self).columns[i].posts
                    == old(self).columns[i].posts && final(self).columns[i].selected == if i
                    == old(self).focus {
                    None
                } else {
                    old(self).columns[i].selected
                },
    {
        self.unselect_focused();
        self.focus = if self.focus == 0 {
            if self.columns.len() == 0 {
                0
            } else {
                self.columns.len() - 1
            }
        } else {
            self.focus - 1
        };
    }

    /// Takes the selection off every column.
    pub fn escape(&mut self)
        ensures
            final(self).focus == old(self).focus,
            final(self).max_len == old(self).max_len,
            final(self).columns.len() == old(self).columns.len(),
            forall|i: int|
                0 <= i < old(self).columns.len() ==> (#[trigger] final(self).columns[i]).name
                    == old(self).columns[i].name && final(self).columns[i].posts
                    == old(self).columns[i].posts && final(self).columns[i].selected is None,
    {
        let ghost start = self.columns@;
        let mut out: Vec<Column> = Vec::new();
        let ghost mut taken: int = 0;
        while self.columns.len() > 0
            invariant
                0 <= taken,
                taken + self.columns.len() == start.len(),
                self.columns@ == start.skip(taken),
                out.len() == taken,
                self.focus == old(self).focus,
                self.max_len == old(self).max_len,
                forall|i: int|
                    0 <= i < taken ==> (#[trigger] out[i]).name == start[i].name && out[i].posts
                        == start[i].posts && out[i].selected is None,
            decreases self.columns.len(),
        {
            let mut column = self.columns.remove(0);
            assert(column == start[taken]);
            assert(self.columns@ =~= start.skip(taken + 1));
            column.selected = None;
            out.push(column);
            proof {
                taken = taken + 1;
            }
        }
        self.columns = out;
    }

    /// Position of the column named `name`.
    pub fn find(&self, name: &str) -> (r: Option<usize>)
        ensures
            match r {
                Some(i) => i < self.columns.len() && self.columns[i as int].name@ == name@ && forall|
                    k: int,
                | 0 <= k < i ==> (#[trigger] self.columns[k]).name@ != name@,
                None => forall|k: int|
                    0 <= k < self.columns.len() ==> (#[trigger] self.columns[k]).name@ != name@,
            },
    {
        let mut i: usize = 0;
        while i < self.columns.len()
            invariant
                i <= self.columns.len(),
                forall|k: int| 0 <= k < i ==> (#[trigger] self.columns[k]).name@ != name@,
            decreases self.columns.len() - i,
        {
            if crate::text::str_eq(self.columns[i].name.as_str(), name) {
                return Some(i);
            }
            i += 1;
        }
        None
    }
}

/// Position of the first post at or after `from` that has an attachment, or
/// the number of posts.
pub open spec fn next_with_blobs(posts: Seq<Post>, from: int) -> int
    decreases posts.len() - from,
{
    if from < 0 || from >= posts.len() {
        posts.len() as int
    } else if posts[from].blobs@.len() > 0 {
        from
    } else {
        next_with_blobs(posts, from + 1)
    }
}

/// Position of the last post at or before `from` that has an attachment, or
/// -1.
pub open spec fn previous_with_blobs(posts: Seq<Post>, from: int) -> int
    decreases from + 1,
{
    if from < 0 || from >= posts.len() {
        -1
    } else if posts[from].blobs@.len() > 0 {
        from
    } else {
        previous_with_blobs(posts, from - 1)
    }
}

/// One attachment of one post of a column.
#[derive(Debug, Clone, Copy, PartialEq, Eq, Structural)]
pub struct Shown {
    pub post: usize,
    pub blob: usize,
}

/// The attachment to show after the one at `at`: the next of the same post,
/// else the first of the next post further down that has any.
pub open spec fn shown_after(posts: Seq<Post>, at: Shown) -> Option<Shown> {
    if at.post < posts.len() && at.blob + 1 < posts[at.post as int].blobs@.len() {
        Some(Shown { post: at.post, blob: (at.blob + 1) as usize })
    } else if next_with_blobs(posts, at.post + 1) < posts.len() {
        Some(Shown { post: next_with_blobs(posts, at.post + 1) as usize, blob: 0 })
    } else {
        None
    }
}

/// The attachment to show before the one at `at`: the one before of the same
/// post, else the first of the next post further up that has any.
pub open spec fn shown_before(posts: Seq<Post>, at: Shown) -> Option<Shown> {
    if at.post < posts.len() && 0 < at.blob <= posts[at.post as int].blobs@.len() {
        Some(Shown { post: at.post, blob: (at.blob - 1) as usize })
    } else if previous_with_blobs(posts, at.post - 1) >= 0 {
        Some(Shown { post: previous_with_blobs(posts, at.post - 1) as usize, blob: 0 })
    } else {
        None
    }
}

impl Column {
    /// The first attachment of the post selected, if one is selected and has
    /// an attachment.
    pub fn first_image(&self) -> (r: Option<Shown>)
        ensures
            r == match self.selected {
                Some(s) => if s < self.posts@.len() && self.posts@[s as int].blobs@.len() > 0 {
                    Some(Shown { post: s, blob: 0 })
                } else {
                    None::<Shown>
                },
                None => None::<Shown>,
            },
    {
        match self.selected {
            Some(s) => if s < self.posts.len() && self.posts[s].blobs.len() > 0 {
                Some(Shown { post: s, blob: 0 })
            } else {
                None
            },
            None => None,
        }
    }

    /// The attachment to show after the one at `at`.
    pub fn image_after(&self, at: Shown) -> (r: Option<Shown>)
        ensures
            r == shown_after(self.posts@, at),
    {
        if at.post >= self.posts.len() {
            assert(next_with_blobs(self.posts@, at.post + 1) == self.posts@.len());
            return None;
        }
        let count = self.posts[at.post].blobs.len();
        if count > 0 && at.blob < count - 1 {
            return Some(Shown { post: at.post, blob: at.blob + 1 });
        }
        let mut i: usize = at.post + 1;
        while i < self.posts.len() && self.posts[i].blobs.len() == 0
            invariant
                at.post < i <= self.posts.len(),
                next_with_blobs(self.posts@, at.post + 1) == next_with_blobs(self.posts@, i as int),
            decreases self.posts.len() - i,
        {
            i += 1;
        }
        assert(next_with_blobs(self.posts@, i as int) == i);
        if i < self.posts.len() {
            Some(Shown { post: i, blob: 0 })
        } else {
            None
        }
    }

    /// The attachment to show before the one at `at`.
    pub fn image_before(&self, at: Shown) -> (r: Option<Shown>)
        ensures
            r == shown_before(self.posts@, at),
    {
        if at.post < self.posts.len() && 0 < at.blob && at.blob <= self.posts[at.post].blobs.len() {
            return Some(Shown { post: at.post, blob: at.blob - 1 });
        }
        if at.post == 0 || at.post > self.posts.len() {
            return None;
        }
        let mut i: usize = at.post;
        while i > 0 && self.posts[i - 1].blobs.len() == 0
            invariant
                i <= at.post <= self.posts.len(),
                previous_with_blobs(self.posts@, at.post - 1) == previous_with_blobs(
                    self.posts@,
                    i - 1,
                ),
            decreases i,
        {
            i -= 1;
        }
        assert(previous_with_blobs(self.posts@, i - 1) == i - 1);
        if i > 0 {
            Some(Shown { post: i - 1, blob: 0 })
        } else {
            None
        }
    }

    /// The address of the attachment at `at`, if there is one.
    pub fn image_url(&self, at: Shown) -> (r: Option<&String>)
        ensures
            match r {
                Some(u) => at.post < self.posts@.len() && at.blob
                    < self.posts@[at.post as int].blobs@.len() && *u
                    == self.posts@[at.post as int].blobs@[at.blob as int],
                None => !(at.post < self.posts@.len() && at.blob
                    < self.posts@[at.post as int].blobs@.len()),
            },
    {
        if at.post < self.posts.len() && at.blob < self.posts[at.post].blobs.len() {
            Some(&self.posts[at.post].blobs[at.blob])
        } else {
            None
        }
    }
}

} // verus!
