//! What plays next: queued requests first, in the order they were queued,
//! then random picks from the playlist.

use std::collections::VecDeque;
use vstd::prelude::*;
use vstd::string::StringExecFns;

use rand::seq::IndexedRandom;

use crate::text::{
    decimal, lemma_decimal_digits, lemma_split_lines_append, lemma_split_one_line, push_char,
    push_decimal, split_lines, texts,
};
use crate::track::{display_spec, TrackMetadata, TrackMetadataView};

verus! {

/// The contents of a sequence of tracks.
pub open spec fn track_views(s: Seq<TrackMetadata>) -> Seq<TrackMetadataView> {
    s.map_values(|t: TrackMetadata| t@)
}

/// Tracks that listeners asked for, oldest first.
pub struct TrackQueue {
    items: VecDeque<TrackMetadata>,
}

impl View for TrackQueue {
    type V = Seq<TrackMetadataView>;

    closed spec fn view(&self) -> Seq<TrackMetadataView> {
        track_views(self.items@)
    }
}

/// One line of the queue listing: the 1-based position, then the track.
pub open spec fn listing_entry(position: nat, t: TrackMetadataView) -> Seq<char> {
    decimal(position) + ". "@ + display_spec(t) + seq!['\n']
}

/// The numbered lines for every track of `q`.
pub open spec fn listing_entries(q: Seq<TrackMetadataView>) -> Seq<char>
    decreases q.len(),
{
    if q.len() == 0 {
        Seq::empty()
    } else {
        listing_entries(q.drop_last()) + listing_entry(q.len(), q.last())
    }
}

/// The reply to `/queue`: a fixed sentence for an empty queue, otherwise one
/// numbered line per queued track.
pub open spec fn listing_spec(q: Seq<TrackMetadataView>) -> Seq<char> {
    if q.len() == 0 {
        "The queue is empty."@
    } else {
        listing_entries(q)
    }
}

impl TrackQueue {
    /// An empty queue.
    pub fn new() -> (q: TrackQueue)
        ensures
            q@ == Seq::<TrackMetadataView>::empty(),
    {
        let q = TrackQueue { items: VecDeque::new() };
        assert(q@ =~= Seq::<TrackMetadataView>::empty());
        q
    }

    /// How many tracks are queued.
    pub fn len(&self) -> (n: usize)
        ensures
            n == self@.len(),
    {
        self.items.len()
    }

    /// Whether nothing is queued.
    pub fn is_empty(&self) -> (b: bool)
        ensures
            b == (self@.len() == 0),
    {
        self.items.len() == 0
    }

    /// Queues `track` behind every track already queued.
    pub fn push_back(&mut self, track: TrackMetadata)
        ensures
            final(self)@ == old(self)@.push(track@),
    {
        let ghost before = self.items@;
        self.items.push_back(track);
        assert(track_views(self.items@) =~= track_views(before).push(track@));
    }

    /// Takes out the oldest queued track, if any.
    pub fn pop_front(&mut self) -> (t: Option<TrackMetadata>)
        ensures
            old(self)@.len() > 0 ==> (t matches Some(t) && t@ == old(self)@[0]
                && final(self)@ == old(self)@.drop_first()),
            old(self)@.len() == 0 ==> t is None && final(self)@ == old(self)@,
    {
        let ghost before = self.items@;
        let t = self.items.pop_front();
        proof {
            if before.len() > 0 {
                assert(track_views(self.items@) =~= track_views(before).drop_first());
            }
        }
        t
    }

    /// The listing shown by `/queue` (see [`listing_spec`]).
    pub fn listing(&self) -> (s: String)
        ensures
            s@ == listing_spec(self@),
    {
        let n = self.items.len();
        if n == 0 {
            return String::from_str("The queue is empty.");
        }
        let ghost q = self@;
        let mut s = String::new();
        let mut i: usize = 0;
        assert(q.take(0) =~= Seq::<TrackMetadataView>::empty());
        while i < n
            invariant
                i <= n == self.items@.len() == q.len(),
                q == self@,
                s@ == listing_entries(q.take(i as int)),
            decreases n - i,
        {
            let t = &self.items[i];
            assert(t@ == q[i as int]);
            push_decimal(&mut s, (i + 1) as u64);
            s.append(". ");
            let shown = t.display();
            s.append(shown.as_str());
            push_char(&mut s, '\n');
            assert(q.take(i + 1).drop_last() =~= q.take(i as int));
            assert(s@ =~= listing_entries(q.take(i as int)) + listing_entry((i + 1) as nat, q[i as int]));
            i = i + 1;
        }
        assert(q.take(n as int) =~= q);
        s
    }
}

/// Picks a playlist entry uniformly at random: rand's `IndexedRandom::choose`
/// on the thread-local generator. Claims only that the pick is absent exactly
/// when the playlist is empty and is otherwise one of its entries; which entry
/// is left to chance.
#[verifier::external_body]
fn pick_random(playlist: &Vec<String>) -> (picked: Option<String>)
    ensures
        picked is None <==> playlist@.len() == 0,
        picked matches Some(s) ==> exists|i: int| 0 <= i < playlist@.len() && #[trigger] playlist@[i]@ == s@,
{
    playlist.as_slice().choose(&mut rand::rng()).cloned()
}

/// The contents of a broadcast's program: its playlist and its queue.
pub struct BroadcastView {
    pub playlist: Seq<Seq<char>>,
    pub queue: Seq<TrackMetadataView>,
}

/// The program of the radio: a fixed playlist and the queue of requests.
pub struct Broadcast {
    playlist: Vec<String>,
    queue: TrackQueue,
}

impl View for Broadcast {
    type V = BroadcastView;

    closed spec fn view(&self) -> BroadcastView {
        BroadcastView { playlist: texts(self.playlist@), queue: self.queue@ }
    }
}

impl Broadcast {
    /// A broadcast of `playlist` with nothing queued.
    pub fn new(playlist: Vec<String>) -> (b: Broadcast)
        ensures
            b@.playlist == texts(playlist@),
            b@.queue == Seq::<TrackMetadataView>::empty(),
    {
        Broadcast { playlist, queue: TrackQueue::new() }
    }

    /// The playlist the broadcast falls back on.
    pub fn playlist(&self) -> (p: &Vec<String>)
        ensures
            texts(p@) == self@.playlist,
    {
        &self.playlist
    }

    /// The queue of requested tracks, for adding to or reading it.
    pub fn queue(&mut self) -> (q: &mut TrackQueue)
        ensures
            q@ == old(self)@.queue,
            final(self)@ == (BroadcastView { playlist: old(self)@.playlist, queue: final(q)@ }),
    {
        &mut self.queue
    }

    /// The URL to play next: the oldest queued track when there is one (it
    /// leaves the queue), otherwise a random playlist entry.
    pub fn next_url(&mut self) -> (url: String)
        requires
            old(self)@.queue.len() > 0 || old(self)@.playlist.len() > 0,
        ensures
            final(self)@.playlist == old(self)@.playlist,
            old(self)@.queue.len() > 0 ==> url@ == old(self)@.queue[0].youtube_url
                && final(self)@.queue == old(self)@.queue.drop_first(),
            old(self)@.queue.len() == 0 ==> old(self)@.playlist.contains(url@)
                && final(self)@.queue == old(self)@.queue,
    {
        let ghost pl = self.playlist@;
        let drawn = if self.queue.is_empty() {
            pick_random(&self.playlist)
        } else {
            None
        };
        let url = self.next_url_from_draw(drawn);
        proof {
            if old(self)@.queue.len() == 0 {
                let d = drawn->0;
                let i = choose|i: int| 0 <= i < pl.len() && #[trigger] pl[i]@ == d@;
                assert(texts(pl)[i] == url@);
            }
        }
        url
    }

    /// The URL to play next, given `drawn`, the playlist entry a random draw
    /// produced when nothing is queued: the oldest queued track when there is
    /// one (it leaves the queue and the draw is ignored), otherwise exactly
    /// the drawn entry.
    pub fn next_url_from_draw(&mut self, drawn: Option<String>) -> (url: String)
        requires
            old(self)@.queue.len() > 0 || drawn is Some,
        ensures
            final(self)@.playlist == old(self)@.playlist,
            old(self)@.queue.len() > 0 ==> url@ == old(self)@.queue[0].youtube_url
                && final(self)@.queue == old(self)@.queue.drop_first(),
            old(self)@.queue.len() == 0 ==> (drawn matches Some(d) && url@ == d@
                && final(self)@.queue == old(self)@.queue),
    {
        match self.queue.pop_front() {
            Some(track) => track.youtube_url,
            None => drawn.unwrap(),
        }
    }
}

/// How many bytes of decoded audio are moved to the stream at a time:
/// 960 stereo frames of 32-bit samples.
pub const PCM_CHUNK: usize = 960 * 2 * 4;

/// What a read from the decoder returned.
#[derive(Debug, PartialEq, Eq, Structural)]
pub enum DecoderRead {
    /// This many bytes were read.
    Bytes(usize),
    /// The read failed.
    Failed,
}

/// What to do after a read from the decoder.
#[derive(Debug, PartialEq, Eq, Structural)]
pub enum PumpAction {
    /// Write this many bytes, from the front of the read buffer, to the stream.
    Forward(usize),
    /// The track is over: the decoder ended or failed.
    Stop,
}

/// The decision of the copy loop that plays a track: bytes read are passed
/// on; a read of no bytes (end of the decoded audio) or a failed read ends the track.
pub fn pump_step(read: DecoderRead) -> (action: PumpAction)
    ensures
        action == (match read {
            DecoderRead::Bytes(n) => if n == 0 {
                PumpAction::Stop
            } else {
                PumpAction::Forward(n)
            },
            DecoderRead::Failed => PumpAction::Stop,
        }),
{
    match read {
        DecoderRead::Bytes(n) => if n == 0 {
            PumpAction::Stop
        } else {
            PumpAction::Forward(n)
        },
        DecoderRead::Failed => PumpAction::Stop,
    }
}

/// The URLs that `n` successive calls of [`Broadcast::next_url`] take from
/// queue `q`, as its contract describes each call: the front track's URL is
/// returned and the track leaves the queue.
pub open spec fn urls_taken(q: Seq<TrackMetadataView>, n: nat) -> Seq<Seq<char>>
    decreases n,
{
    if n == 0 || q.len() == 0 {
        Seq::empty()
    } else {
        seq![q[0].youtube_url] + urls_taken(q.drop_first(), (n - 1) as nat)
    }
}

/// The URL of each track of `q`, in queue order.
pub open spec fn queued_urls(q: Seq<TrackMetadataView>) -> Seq<Seq<char>> {
    q.map_values(|t: TrackMetadataView| t.youtube_url)
}

/// Requests play in the order they were queued: `n` successive picks from a
/// queue of at least `n` tracks return the URLs of its first `n` tracks, in order.
pub proof fn law_queue_plays_in_order(q: Seq<TrackMetadataView>, n: nat)
    requires
        n <= q.len(),
    ensures
        urls_taken(q, n) == queued_urls(q).take(n as int),
    decreases n,
{
    if n > 0 {
        law_queue_plays_in_order(q.drop_first(), (n - 1) as nat);
        assert(queued_urls(q).take(n as int) =~= seq![q[0].youtube_url] + queued_urls(
            q.drop_first(),
        ).take(n - 1));
    } else {
        assert(queued_urls(q).take(0) =~= Seq::<Seq<char>>::empty());
    }
}

/// Tracks queued later play after every track already waiting: after the
/// picks that empty a queue `q`, the next picks take the later tracks, in order.
pub proof fn law_later_requests_wait_their_turn(q: Seq<TrackMetadataView>, later: Seq<TrackMetadataView>)
    ensures
        urls_taken(q + later, q.len() + later.len()) == queued_urls(q) + queued_urls(later),
{
    law_queue_plays_in_order(q + later, q.len() + later.len());
    assert(queued_urls(q + later).take((q.len() + later.len()) as int) =~= queued_urls(q)
        + queued_urls(later));
}

/// Whether `t` can stand on one line of a listing: no line feed in it, and
/// no carriage return at its end.
pub open spec fn fits_one_line(t: Seq<char>) -> bool {
    &&& forall|j: int| 0 <= j < t.len() ==> t[j] != '\n'
    &&& (t.len() == 0 || t.last() != '\r')
}

proof fn lemma_entries_start_with_one(q: Seq<TrackMetadataView>)
    requires
        q.len() > 0,
    ensures
        listing_entries(q).len() > 0,
        listing_entries(q)[0] == '1',
    decreases q.len(),
{
    lemma_decimal_digits(q.len());
    if q.len() == 1 {
        assert(q.drop_last().len() == 0);
        assert(listing_entries(q) == listing_entries(q.drop_last()) + listing_entry(1, q.last()));
        assert(listing_entries(q.drop_last()) == Seq::<char>::empty());
        assert(decimal(1) == seq!['1']);
        assert(listing_entries(q)[0] == listing_entry(1, q.last())[0]);
    } else {
        lemma_entries_start_with_one(q.drop_last());
        assert(listing_entries(q)[0] == listing_entries(q.drop_last())[0]);
    }
}

/// The reply to `/queue` is the fixed sentence exactly when nothing is
/// queued; any queued track makes it a listing instead.
pub proof fn law_empty_sentence_only_for_empty_queue(q: Seq<TrackMetadataView>)
    ensures
        (listing_spec(q) == "The queue is empty."@) <==> q.len() == 0,
{
    reveal_strlit("The queue is empty.");
    if q.len() > 0 {
        lemma_entries_start_with_one(q);
        assert(listing_spec(q)[0] != "The queue is empty."@[0]);
    }
}

/// A non-empty queue is listed one line per track, in queue order: line `i`
/// is the position `i + 1` in decimal, `". "`, and the track's display name
/// (for tracks whose names fit on one line).
pub proof fn law_listing_has_one_line_per_track(q: Seq<TrackMetadataView>)
    requires
        q.len() > 0,
        forall|i: int| 0 <= i < q.len() ==> fits_one_line(#[trigger] display_spec(q[i])),
    ensures
        split_lines(listing_spec(q)).len() == q.len(),
        forall|i: int|
            0 <= i < q.len() ==> #[trigger] split_lines(listing_spec(q))[i] == decimal((i + 1) as nat)
                + ". "@ + display_spec(q[i]),
{
    lemma_listing_entries_lines(q);
}

proof fn lemma_listing_entries_lines(q: Seq<TrackMetadataView>)
    requires
        forall|i: int| 0 <= i < q.len() ==> fits_one_line(#[trigger] display_spec(q[i])),
    ensures
        split_lines(listing_entries(q)).len() == q.len(),
        forall|i: int|
            0 <= i < q.len() ==> #[trigger] split_lines(listing_entries(q))[i] == decimal(
                (i + 1) as nat,
            ) + ". "@ + display_spec(q[i]),
        q.len() > 0 ==> listing_entries(q).len() > 0 && listing_entries(q).last() == '\n',
    decreases q.len(),
{
    if q.len() > 0 {
        let p = q.drop_last();
        assert forall|i: int| 0 <= i < p.len() implies fits_one_line(#[trigger] display_spec(p[i])) by {
            assert(p[i] == q[i]);
            assert(fits_one_line(display_spec(q[i])));
        }
        lemma_listing_entries_lines(p);
        let n = q.len();
        let d = display_spec(q.last());
        assert(fits_one_line(display_spec(q[n - 1])));
        let line = decimal(n) + ". "@ + d;
        reveal_strlit(". ");
        lemma_decimal_digits(n);
        assert forall|j: int| 0 <= j < line.len() implies line[j] != '\n' by {
            if j < decimal(n).len() {
                assert(line[j] == decimal(n)[j]);
                assert(crate::text::is_digit(decimal(n)[j]));
            } else if j < decimal(n).len() + 2 {
                assert(line[j] == ". "@[j - decimal(n).len()]);
            } else {
                assert(line[j] == d[j - decimal(n).len() - 2]);
            }
        }
        assert(line.len() == 0 || line.last() != '\r') by {
            if d.len() > 0 {
                assert(line.last() == d.last());
            } else {
                assert(line.last() == ". "@[1]);
            }
        }
        lemma_split_one_line(line);
        assert(listing_entry(n, q.last()) == line + seq!['\n']);
        assert(listing_entries(q) == listing_entries(p) + listing_entry(n, q.last()));
        if p.len() == 0 {
            assert(listing_entries(p) == Seq::<char>::empty());
            assert(listing_entries(q) =~= line + seq!['\n']);
        } else {
            lemma_split_lines_append(listing_entries(p), line + seq!['\n']);
        }
        assert(split_lines(listing_entries(q)) =~= split_lines(listing_entries(p)) + seq![line]);
        assert forall|i: int| 0 <= i < q.len() implies #[trigger] split_lines(listing_entries(q))[i]
            == decimal((i + 1) as nat) + ". "@ + display_spec(q[i]) by {
            if i < p.len() {
                assert(split_lines(listing_entries(q))[i] == split_lines(listing_entries(p))[i]);
                assert(p[i] == q[i]);
            }
        }
        assert(listing_entries(q).last() == listing_entry(n, q.last()).last());
    }
}

} // verus!
