//! Subtitles: the recent sounds shown as a text box, one line each.
use vstd::prelude::*;
use crate::text::{owned, push_char, push_str, replace_all, replaced, str_eq};

verus! {

/// The subtitle translation key of a sound id ("minecraft:x" becomes
/// "subtitles.x").
pub fn subtitle_key(sound: &str) -> (r: String)
    ensures
        r@ == replaced(sound@, "minecraft:"@, "subtitles."@),
{
    proof {
        reveal_strlit("minecraft:");
    }
    replace_all(sound, "minecraft:", "subtitles.")
}

/// The subtitle box text: each line preceded by a newline.
pub open spec fn subtitle_text_of(lines: Seq<Seq<char>>) -> Seq<char>
    decreases lines.len(),
{
    if lines.len() == 0 {
        Seq::empty()
    } else {
        subtitle_text_of(lines.drop_last()) + seq!['\n'] + lines.last()
    }
}

/// Recent subtitles with the time (in milliseconds) they were added, and
/// the box text last sent to the client.
pub struct ChatState {
    pub subtitles: Vec<(String, u64)>,
    pub prev_subtitle_string: String,
}

/// The texts of the subtitles, in order.
pub open spec fn subtitle_lines(s: Seq<(String, u64)>) -> Seq<Seq<char>> {
    s.map_values(|e: (String, u64)| e.0@)
}

/// The subtitles as (text, time added).
pub open spec fn subtitle_entries(s: Seq<(String, u64)>) -> Seq<(Seq<char>, u64)> {
    s.map_values(|e: (String, u64)| (e.0@, e.1))
}

/// Keeps the subtitles added after `cutoff`.
pub open spec fn added_after(cutoff: u64) -> spec_fn((Seq<char>, u64)) -> bool {
    |e: (Seq<char>, u64)| e.1 > cutoff
}

impl ChatState {
    /// No subtitles, nothing sent yet.
    pub fn new() -> (r: ChatState)
        ensures
            r.subtitles@ == Seq::<(String, u64)>::empty(),
            r.prev_subtitle_string@ == Seq::<char>::empty(),
    {
        ChatState { subtitles: Vec::new(), prev_subtitle_string: String::new() }
    }

    /// Adds a subtitle at time `now`.
    pub fn add_subtitle(&mut self, text: String, now: u64)
        ensures
            final(self).subtitles@ == old(self).subtitles@.push((text, now)),
            final(self).prev_subtitle_string == old(self).prev_subtitle_string,
    {
        self.subtitles.push((text, now));
    }

    /// The current box text.
    pub fn subtitle_text(&self) -> (r: String)
        ensures
            r@ == subtitle_text_of(subtitle_lines(self.subtitles@)),
    {
        let mut r = String::new();
        let mut i: usize = 0;
        while i < self.subtitles.len()
            invariant
                i <= self.subtitles@.len(),
                r@ == subtitle_text_of(subtitle_lines(self.subtitles@.take(i as int))),
            decreases self.subtitles.len() - i,
        {
            let ghost lines = subtitle_lines(self.subtitles@.take(i + 1));
            assert(lines.drop_last() =~= subtitle_lines(self.subtitles@.take(i as int)));
            push_char(&mut r, '\n');
            push_str(&mut r, self.subtitles[i].0.as_str());
            i += 1;
        }
        assert(self.subtitles@.take(i as int) =~= self.subtitles@);
        r
    }

    /// Drops the subtitles added at or before `cutoff`, keeping the order.
    pub fn expire_subtitles(&mut self, cutoff: u64)
        ensures
            subtitle_entries(final(self).subtitles@) == subtitle_entries(old(self).subtitles@).filter(
                added_after(cutoff),
            ),
            final(self).prev_subtitle_string == old(self).prev_subtitle_string,
    {
        let ghost all = self.subtitles@;
        let mut kept: Vec<(String, u64)> = Vec::new();
        let mut i: usize = 0;
        while i < self.subtitles.len()
            invariant
                i <= self.subtitles@.len(),
                all == self.subtitles@,
                subtitle_entries(kept@) == subtitle_entries(all.take(i as int)).filter(added_after(cutoff)),
            decreases self.subtitles.len() - i,
        {
            let ghost t = subtitle_entries(all.take(i + 1));
            proof {
                reveal(Seq::filter);
                assert(t.drop_last() =~= subtitle_entries(all.take(i as int)));
                assert(t.last() == (all[i as int].0@, all[i as int].1));
            }
            let ghost before = subtitle_entries(kept@);
            let e = &self.subtitles[i];
            if e.1 > cutoff {
                let copy = (owned(e.0.as_str()), e.1);
                kept.push(copy);
                assert(subtitle_entries(kept@) =~= before.push(t.last()));
            } else {
                assert(subtitle_entries(kept@) =~= before);
            }
            i += 1;
        }
        assert(all.take(i as int) =~= all);
        self.subtitles = kept;
    }

    /// The per-tick update: drops subtitles added at or before `cutoff`
    /// and returns the box text when it differs from the text last sent
    /// (which it then becomes); `None` when the client is up to date.
    pub fn refresh_subtitles(&mut self, cutoff: u64) -> (r: Option<String>)
        ensures
            subtitle_entries(final(self).subtitles@) == subtitle_entries(old(self).subtitles@).filter(
                added_after(cutoff),
            ),
            ({
                let text = subtitle_text_of(subtitle_lines(final(self).subtitles@));
                &&& final(self).prev_subtitle_string@ == text
                &&& text != old(self).prev_subtitle_string@ ==> (r matches Some(t) && t@ == text)
                &&& text == old(self).prev_subtitle_string@ ==> r is None
            }),
    {
        self.expire_subtitles(cutoff);
        let text = self.subtitle_text();
        if str_eq(text.as_str(), self.prev_subtitle_string.as_str()) {
            None
        } else {
            let sent = owned(text.as_str());
            self.prev_subtitle_string = text;
            Some(sent)
        }
    }
}

proof fn lemma_filter_of_satisfying(s: Seq<(Seq<char>, u64)>, cutoff: u64)
    requires
        forall|i: int| 0 <= i < s.len() ==> #[trigger] s[i].1 > cutoff,
    ensures
        s.filter(added_after(cutoff)) == s,
    decreases s.len(),
{
    reveal(Seq::filter);
    if s.len() > 0 {
        lemma_filter_of_satisfying(s.drop_last(), cutoff);
        assert(s.drop_last().push(s.last()) =~= s);
    }
}

proof fn lemma_lines_from_entries(s: Seq<(String, u64)>)
    ensures
        subtitle_lines(s) == subtitle_entries(s).map_values(|e: (Seq<char>, u64)| e.0),
{
    assert(subtitle_lines(s) =~= subtitle_entries(s).map_values(|e: (Seq<char>, u64)| e.0));
}

/// Refreshing the subtitles twice with the same cutoff: the second
/// expiry keeps every subtitle and the box text stays the one the first
/// refresh sent, so the second refresh sends nothing.
pub proof fn law_second_refresh_sends_nothing(
    s: Seq<(String, u64)>,
    once: Seq<(String, u64)>,
    twice: Seq<(String, u64)>,
    cutoff: u64,
)
    requires
        subtitle_entries(once) == subtitle_entries(s).filter(added_after(cutoff)),
        subtitle_entries(twice) == subtitle_entries(once).filter(added_after(cutoff)),
    ensures
        subtitle_entries(twice) == subtitle_entries(once),
        subtitle_text_of(subtitle_lines(twice)) == subtitle_text_of(subtitle_lines(once)),
{
    let e = subtitle_entries(s);
    e.filter_lemma(added_after(cutoff));
    lemma_filter_of_satisfying(subtitle_entries(once), cutoff);
    lemma_lines_from_entries(once);
    lemma_lines_from_entries(twice);
}

} // verus!
