use vstd::prelude::*;

verus! {

/// The value `x` held within the range of a signed 16-bit sample.
pub open spec fn clamp_i16(x: int) -> int {
    if x < i16::MIN as int {
        i16::MIN as int
    } else if x > i16::MAX as int {
        i16::MAX as int
    } else {
        x
    }
}

/// Additive mixing of two samples with hard clipping.
pub open spec fn mixed(a: i16, b: i16) -> i16 {
    clamp_i16(a as int + b as int) as i16
}

/// Each sample of a mono sequence repeated into a left/right pair.
pub open spec fn stereo_of(s: Seq<i16>) -> Seq<i16> {
    Seq::new(2 * s.len(), |i: int| s[i / 2])
}

/// Mixes two samples: their sum, clipped to the 16-bit range.
pub fn mix_sample(a: i16, b: i16) -> (r: i16)
    ensures
        r as int == clamp_i16(a as int + b as int),
        r == mixed(a, b),
{
    let sum: i32 = a as i32 + b as i32;
    if sum < i16::MIN as i32 {
        i16::MIN
    } else if sum > i16::MAX as i32 {
        i16::MAX
    } else {
        sum as i16
    }
}

/// Expands mono samples to stereo by duplicating each sample.
pub fn mono_to_stereo(samples: &Vec<i16>) -> (r: Vec<i16>)
    ensures
        r@ == stereo_of(samples@),
        r@.len() == 2 * samples@.len(),
        forall|i: int|
            0 <= i < samples@.len() ==> #[trigger] r@[2 * i] == samples@[i] && r@[2 * i + 1]
                == samples@[i],
{
    let mut out: Vec<i16> = Vec::new();
    let mut i: usize = 0;
    while i < samples.len()
        invariant
            i <= samples@.len(),
            out@ == stereo_of(samples@.take(i as int)),
        decreases samples@.len() - i,
    {
        let s = samples[i];
        out.push(s);
        out.push(s);
        i = i + 1;
        assert(out@ =~= stereo_of(samples@.take(i as int)));
    }
    assert(samples@.take(i as int) =~= samples@);
    out
}


/// `n` rounded down to an even count, i.e. to whole stereo pairs.
pub open spec fn even_floor(n: int) -> int {
    n - n % 2
}

/// A block of one source in stereo layout: mono blocks are duplicated,
/// other layouts are taken as they come.
pub open spec fn expanded(block: Seq<i16>, channels: u16) -> Seq<i16> {
    if channels == 1 {
        stereo_of(block)
    } else {
        block
    }
}

/// All blocks of one source, each expanded, in arrival order.
pub open spec fn expanded_blocks(blocks: Seq<Vec<i16>>, channels: u16) -> Seq<i16>
    decreases blocks.len(),
{
    if blocks.len() == 0 {
        Seq::empty()
    } else {
        expanded_blocks(blocks.drop_last(), channels) + expanded(blocks.last()@, channels)
    }
}

/// The first `k` samples of two buffers, mixed position by position.
pub open spec fn mixed_prefix(a: Seq<i16>, b: Seq<i16>, k: int) -> Seq<i16> {
    Seq::new(k as nat, |i: int| mixed(a[i], b[i]))
}

/// How many samples the two buffers can mix now: whole pairs present in both.
pub open spec fn paired_len(a: Seq<i16>, b: Seq<i16>) -> int {
    if a.len() <= b.len() {
        even_floor(a.len() as int)
    } else {
        even_floor(b.len() as int)
    }
}

/// How many samples of `a` pass through unmixed: all its whole pairs when
/// the other buffer `b` is empty and `a` holds at least one pair.
pub open spec fn pass_len(a: Seq<i16>, b: Seq<i16>) -> int {
    if a.len() >= 2 && b.len() == 0 {
        even_floor(a.len() as int)
    } else {
        0
    }
}

/// What one mixing step writes, given the microphone buffer `m` and the
/// system buffer `s`: the mixed common pairs, then the pass-through of a
/// source whose counterpart ran dry.
pub open spec fn step_output(m: Seq<i16>, s: Seq<i16>) -> Seq<i16> {
    let k = paired_len(m, s);
    let m1 = m.skip(k);
    let s1 = s.skip(k);
    mixed_prefix(m, s, k) + m1.take(pass_len(m1, s1)) + s1.take(pass_len(s1, m1))
}

/// What one mixing step leaves in buffer `a`, the other buffer being `b`.
pub open spec fn step_rest(a: Seq<i16>, b: Seq<i16>) -> Seq<i16> {
    let k = paired_len(a, b);
    let a1 = a.skip(k);
    let b1 = b.skip(k);
    a1.skip(pass_len(a1, b1))
}

/// Sample `i` of a buffer, or silence past its end.
pub open spec fn sample_or_silence(v: Seq<i16>, i: int) -> i16 {
    if 0 <= i < v.len() {
        v[i]
    } else {
        0
    }
}

/// The number of samples that the final drain mixes: the whole pairs of the
/// longer buffer.
pub open spec fn drain_len(m: Seq<i16>, s: Seq<i16>) -> int {
    if m.len() >= s.len() {
        even_floor(m.len() as int)
    } else {
        even_floor(s.len() as int)
    }
}

/// An odd sample left in `v` past the mixed pairs of the final drain.
pub open spec fn leftover(v: Seq<i16>, k: int) -> Seq<i16> {
    if v.len() > k {
        v.skip(k)
    } else {
        Seq::empty()
    }
}

/// What the final drain writes: every pair up to the longer buffer's end
/// mixed, a missing counterpart counting as silence, then any odd sample
/// left in either buffer.
pub open spec fn drain_output(m: Seq<i16>, s: Seq<i16>) -> Seq<i16> {
    let k = drain_len(m, s);
    Seq::new(k as nat, |i: int| mixed(sample_or_silence(m, i), sample_or_silence(s, i)))
        + leftover(m, k) + leftover(s, k)
}

/// Appends `v[from..to]` to `out`.
fn extend_range(out: &mut Vec<i16>, v: &Vec<i16>, from: usize, to: usize)
    requires
        from <= to <= v@.len(),
    ensures
        final(out)@ == old(out)@ + v@.subrange(from as int, to as int),
{
    let mut i: usize = from;
    while i < to
        invariant
            from <= i <= to <= v@.len(),
            out@ == old(out)@ + v@.subrange(from as int, i as int),
        decreases to - i,
    {
        out.push(v[i]);
        i = i + 1;
        assert(out@ =~= old(out)@ + v@.subrange(from as int, i as int));
    }
}

/// The samples of `v` from index `k` on.
fn tail(v: &Vec<i16>, k: usize) -> (r: Vec<i16>)
    requires
        k <= v@.len(),
    ensures
        r@ == v@.skip(k as int),
{
    let mut r: Vec<i16> = Vec::new();
    extend_range(&mut r, v, k, v.len());
    assert(r@ =~= v@.skip(k as int));
    r
}

/// Appends one block of a source to its buffer in stereo layout.
fn push_block(buf: &mut Vec<i16>, block: &Vec<i16>, channels: u16)
    ensures
        final(buf)@ == old(buf)@ + expanded(block@, channels),
{
    let mut i: usize = 0;
    while i < block.len()
        invariant
            i <= block@.len(),
            buf@ == old(buf)@ + expanded(block@.take(i as int), channels),
        decreases block@.len() - i,
    {
        let x = block[i];
        buf.push(x);
        if channels == 1 {
            buf.push(x);
        }
        i = i + 1;
        assert(buf@ =~= old(buf)@ + expanded(block@.take(i as int), channels));
    }
    assert(block@.take(i as int) =~= block@);
}

/// Appends blocks of a source to its buffer, in order, in stereo layout.
fn push_blocks(buf: &mut Vec<i16>, blocks: &Vec<Vec<i16>>, channels: u16)
    ensures
        final(buf)@ == old(buf)@ + expanded_blocks(blocks@, channels),
{
    let mut i: usize = 0;
    while i < blocks.len()
        invariant
            i <= blocks@.len(),
            buf@ == old(buf)@ + expanded_blocks(blocks@.take(i as int), channels),
        decreases blocks@.len() - i,
    {
        push_block(buf, &blocks[i], channels);
        assert(blocks@.take(i + 1).drop_last() =~= blocks@.take(i as int));
        i = i + 1;
        assert(buf@ =~= old(buf)@ + expanded_blocks(blocks@.take(i as int), channels));
    }
    assert(blocks@.take(i as int) =~= blocks@);
}


/// What the caller does after a poll of the mixer.
#[derive(Clone, Copy, Debug, PartialEq, Eq, Structural)]
pub enum MixerAction {
    /// Blocks arrived: poll again at once.
    Continue,
    /// Nothing arrived while recording goes on: back off briefly, then poll.
    Idle,
    /// Recording stopped and everything was flushed: finalize the sink.
    Finish,
}

/// The outcome of a poll: samples to write, in order, and what to do next.
pub struct MixerStep {
    pub samples: Vec<i16>,
    pub action: MixerAction,
}

/// Mixes the sample streams of a microphone and an optional system source
/// into one stereo stream, aligned by buffer position.
pub struct Mixer {
    /// Channel count of the microphone's blocks.
    pub mic_channels: u16,
    /// Channel count of the system source's blocks.
    pub sys_channels: u16,
    /// Microphone samples in stereo layout awaiting their counterpart.
    pub mic_buffer: Vec<i16>,
    /// System samples in stereo layout awaiting their counterpart.
    pub sys_buffer: Vec<i16>,
}

impl Mixer {
    /// The microphone buffer once `blocks` have been appended.
    pub open spec fn mic_with(&self, blocks: Seq<Vec<i16>>) -> Seq<i16> {
        self.mic_buffer@ + expanded_blocks(blocks, self.mic_channels)
    }

    /// The system buffer once `blocks` have been appended.
    pub open spec fn sys_with(&self, blocks: Seq<Vec<i16>>) -> Seq<i16> {
        self.sys_buffer@ + expanded_blocks(blocks, self.sys_channels)
    }

    /// A mixer with empty buffers for sources of the given channel counts.
    pub fn new(mic_channels: u16, sys_channels: u16) -> (r: Mixer)
        ensures
            r.mic_channels == mic_channels,
            r.sys_channels == sys_channels,
            r.mic_buffer@.len() == 0,
            r.sys_buffer@.len() == 0,
    {
        Mixer { mic_channels, sys_channels, mic_buffer: Vec::new(), sys_buffer: Vec::new() }
    }

    /// Appends microphone blocks, in order, converted to stereo.
    pub fn push_mic(&mut self, blocks: &Vec<Vec<i16>>)
        ensures
            final(self).mic_buffer@ == old(self).mic_buffer@ + expanded_blocks(
                blocks@,
                old(self).mic_channels,
            ),
            final(self).sys_buffer@ == old(self).sys_buffer@,
            final(self).mic_channels == old(self).mic_channels,
            final(self).sys_channels == old(self).sys_channels,
    {
        let ch = self.mic_channels;
        push_blocks(&mut self.mic_buffer, blocks, ch);
    }

    /// Appends system blocks, in order, converted to stereo.
    pub fn push_sys(&mut self, blocks: &Vec<Vec<i16>>)
        ensures
            final(self).sys_buffer@ == old(self).sys_buffer@ + expanded_blocks(
                blocks@,
                old(self).sys_channels,
            ),
            final(self).mic_buffer@ == old(self).mic_buffer@,
            final(self).mic_channels == old(self).mic_channels,
            final(self).sys_channels == old(self).sys_channels,
    {
        let ch = self.sys_channels;
        push_blocks(&mut self.sys_buffer, blocks, ch);
    }

    /// Mixes the whole pairs present in both buffers, then passes through
    /// the pairs of a buffer whose counterpart is empty. Returns the samples
    /// to write, in order, and removes them from the buffers.
    pub fn mix_available(&mut self) -> (r: Vec<i16>)
        ensures
            r@ == step_output(old(self).mic_buffer@, old(self).sys_buffer@),
            final(self).mic_buffer@ == step_rest(old(self).mic_buffer@, old(self).sys_buffer@),
            final(self).sys_buffer@ == step_rest(old(self).sys_buffer@, old(self).mic_buffer@),
            final(self).mic_channels == old(self).mic_channels,
            final(self).sys_channels == old(self).sys_channels,
    {
        let ghost m = self.mic_buffer@;
        let ghost s = self.sys_buffer@;
        let n = if self.mic_buffer.len() <= self.sys_buffer.len() {
            self.mic_buffer.len()
        } else {
            self.sys_buffer.len()
        };
        let k = n - n % 2;
        assert(k == paired_len(m, s));
        assert(k == paired_len(s, m));
        let mut out: Vec<i16> = Vec::new();
        let mut i: usize = 0;
        while i < k
            invariant
                i <= k <= m.len(),
                k <= s.len(),
                m == self.mic_buffer@,
                s == self.sys_buffer@,
                out@ == mixed_prefix(m, s, i as int),
            decreases k - i,
        {
            let x = mix_sample(self.mic_buffer[i], self.sys_buffer[i]);
            out.push(x);
            i = i + 1;
            assert(out@ =~= mixed_prefix(m, s, i as int));
        }
        let mut m1 = tail(&self.mic_buffer, k);
        let mut s1 = tail(&self.sys_buffer, k);
        let ghost out1 = out@;
        if m1.len() >= 2 && s1.len() == 0 {
            let p = m1.len() - m1.len() % 2;
            extend_range(&mut out, &m1, 0, p);
            m1 = tail(&m1, p);
        } else if s1.len() >= 2 && m1.len() == 0 {
            let p = s1.len() - s1.len() % 2;
            extend_range(&mut out, &s1, 0, p);
            s1 = tail(&s1, p);
        }
        proof {
            let mm = m.skip(k as int);
            let ss = s.skip(k as int);
            assert(mm.take(pass_len(mm, ss)) =~= mm.subrange(0, pass_len(mm, ss)));
            assert(ss.take(pass_len(ss, mm)) =~= ss.subrange(0, pass_len(ss, mm)));
            assert(out@ =~= step_output(m, s));
            assert(m1@ =~= step_rest(m, s));
            assert(s1@ =~= step_rest(s, m));
        }
        self.mic_buffer = m1;
        self.sys_buffer = s1;
        out
    }

    /// Flushes both buffers at the end of a session: every pair up to the
    /// longer buffer's end is mixed, a missing counterpart counting as
    /// silence, then any odd sample left in either buffer is written as is.
    /// Both buffers are empty afterwards.
    pub fn drain_final(&mut self) -> (r: Vec<i16>)
        ensures
            r@ == drain_output(old(self).mic_buffer@, old(self).sys_buffer@),
            final(self).mic_buffer@.len() == 0,
            final(self).sys_buffer@.len() == 0,
            final(self).mic_channels == old(self).mic_channels,
            final(self).sys_channels == old(self).sys_channels,
    {
        let ghost m = self.mic_buffer@;
        let ghost s = self.sys_buffer@;
        let ml = self.mic_buffer.len();
        let sl = self.sys_buffer.len();
        let n = if ml >= sl {
            ml
        } else {
            sl
        };
        let k = n - n % 2;
        assert(k == drain_len(m, s));
        let mut out: Vec<i16> = Vec::new();
        let mut i: usize = 0;
        while i < k
            invariant
                i <= k <= n,
                n == if ml >= sl { ml } else { sl },
                ml == m.len(),
                sl == s.len(),
                m == self.mic_buffer@,
                s == self.sys_buffer@,
                out@ == Seq::new(
                    i as nat,
                    |j: int| mixed(sample_or_silence(m, j), sample_or_silence(s, j)),
                ),
            decreases k - i,
        {
            let a = if i < ml {
                self.mic_buffer[i]
            } else {
                0
            };
            let b = if i < sl {
                self.sys_buffer[i]
            } else {
                0
            };
            let x = mix_sample(a, b);
            out.push(x);
            i = i + 1;
            assert(out@ =~= Seq::new(
                i as nat,
                |j: int| mixed(sample_or_silence(m, j), sample_or_silence(s, j)),
            ));
        }
        if ml > k {
            extend_range(&mut out, &self.mic_buffer, k, ml);
        }
        if sl > k {
            extend_range(&mut out, &self.sys_buffer, k, sl);
        }
        proof {
            assert(m.skip(k as int) =~= m.subrange(k as int, ml as int));
            assert(s.skip(k as int) =~= s.subrange(k as int, sl as int));
            assert(out@ =~= drain_output(m, s));
        }
        self.mic_buffer = Vec::new();
        self.sys_buffer = Vec::new();
        out
    }

    /// One round of the mixer loop. Appends the blocks that arrived from
    /// each source, mixes and passes through what it can, and decides what
    /// comes next: when recording has stopped (`running` is false) and no
    /// block arrived, the buffers are drained in full and the round ends
    /// the session; otherwise the caller goes on, backing off first when
    /// nothing arrived.
    pub fn poll(&mut self, mic_blocks: &Vec<Vec<i16>>, sys_blocks: &Vec<Vec<i16>>, running: bool) -> (r: MixerStep)
        ensures
            ({
                let m = old(self).mic_with(mic_blocks@);
                let s = old(self).sys_with(sys_blocks@);
                let received = mic_blocks@.len() > 0 || sys_blocks@.len() > 0;
                if !running && !received {
                    &&& r.action == MixerAction::Finish
                    &&& r.samples@ == step_output(m, s) + drain_output(step_rest(m, s), step_rest(s, m))
                    &&& final(self).mic_buffer@.len() == 0
                    &&& final(self).sys_buffer@.len() == 0
                } else {
                    &&& r.action == (if received { MixerAction::Continue } else { MixerAction::Idle })
                    &&& r.samples@ == step_output(m, s)
                    &&& final(self).mic_buffer@ == step_rest(m, s)
                    &&& final(self).sys_buffer@ == step_rest(s, m)
                }
            }),
            final(self).mic_channels == old(self).mic_channels,
            final(self).sys_channels == old(self).sys_channels,
    {
        let received = mic_blocks.len() > 0 || sys_blocks.len() > 0;
        self.push_mic(mic_blocks);
        self.push_sys(sys_blocks);
        let mut samples = self.mix_available();
        if !running && !received {
            let mut rest = self.drain_final();
            samples.append(&mut rest);
            MixerStep { samples, action: MixerAction::Finish }
        } else {
            let action = if received {
                MixerAction::Continue
            } else {
                MixerAction::Idle
            };
            MixerStep { samples, action }
        }
    }
}


/// Mixing with silence leaves a sample unchanged.
pub proof fn lemma_mixed_with_silence(x: i16)
    ensures
        mixed(x, 0) == x,
        mixed(0, x) == x,
{
}

/// A source whose counterpart delivers nothing passes through unchanged:
/// when one buffer holds whole pairs and the other is empty, a mixing step
/// writes exactly those pairs, in order, and empties both buffers; the
/// final drain likewise writes such a buffer exactly as it stands.
pub proof fn lemma_starved_pass_through(a: Seq<i16>)
    ensures
        a.len() % 2 == 0 ==> step_output(a, Seq::empty()) == a,
        a.len() % 2 == 0 ==> step_output(Seq::empty(), a) == a,
        a.len() % 2 == 0 ==> step_rest(a, Seq::empty()).len() == 0,
        a.len() % 2 == 0 ==> step_rest(Seq::empty(), a).len() == 0,
        drain_output(a, Seq::empty()) == a,
        drain_output(Seq::empty(), a) == a,
{
    let e = Seq::<i16>::empty();
    assert(paired_len(a, e) == 0);
    assert(paired_len(e, a) == 0);
    assert(a.skip(0) =~= a);
    assert(e.skip(0) =~= e);
    if a.len() % 2 == 0 {
        assert(mixed_prefix(a, e, 0) =~= e);
        assert(mixed_prefix(e, a, 0) =~= e);
        if a.len() >= 2 {
            assert(a.take(a.len() as int) =~= a);
            assert(step_output(a, e) =~= a);
            assert(step_output(e, a) =~= a);
        } else {
            assert(a =~= e);
            assert(step_output(a, e) =~= a);
            assert(step_output(e, a) =~= a);
        }
    }
    let k = drain_len(a, e);
    assert forall|i: int| 0 <= i < k implies mixed(sample_or_silence(a, i), sample_or_silence(e, i))
        == a[i] && mixed(sample_or_silence(e, i), sample_or_silence(a, i)) == a[i] by {
        lemma_mixed_with_silence(a[i]);
    }
    assert(drain_output(a, e) =~= a);
    assert(drain_output(e, a) =~= a);
}

/// Every block of a mono source, expanded, carries each sample on both
/// channels: the stream has whole pairs whose left and right are equal.
pub proof fn lemma_mono_blocks_are_pairs(blocks: Seq<Vec<i16>>)
    ensures
        expanded_blocks(blocks, 1).len() % 2 == 0,
        forall|i: int|
            0 <= i < expanded_blocks(blocks, 1).len() / 2 ==> #[trigger] expanded_blocks(
                blocks,
                1,
            )[2 * i] == expanded_blocks(blocks, 1)[2 * i + 1],
    decreases blocks.len(),
{
    if blocks.len() > 0 {
        let front = expanded_blocks(blocks.drop_last(), 1);
        let last = stereo_of(blocks.last()@);
        lemma_mono_blocks_are_pairs(blocks.drop_last());
        let all = expanded_blocks(blocks, 1);
        assert(all == front + last);
        assert forall|i: int| 0 <= i < all.len() / 2 implies #[trigger] all[2 * i] == all[2 * i + 1] by {
            if 2 * i < front.len() {
                assert(all[2 * i] == front[2 * i]);
                assert(all[2 * i + 1] == front[2 * i + 1]);
            } else {
                let j = 2 * i - front.len();
                assert(j % 2 == 0);
                assert(all[2 * i] == last[j]);
                assert(all[2 * i + 1] == last[j + 1]);
                assert(last[j] == blocks.last()@[j / 2]);
                assert(last[j + 1] == blocks.last()@[(j + 1) / 2]);
            }
        }
    }
}

/// A session with a mono microphone and no system source writes the
/// microphone's samples duplicated on both channels and nothing else: a
/// poll from empty buffers writes exactly the expanded blocks, leaves
/// nothing behind, and each written pair has equal left and right.
pub proof fn lemma_mono_only_session(mixer: Mixer, mic_blocks: Seq<Vec<i16>>)
    requires
        mixer.mic_channels == 1,
        mixer.mic_buffer@.len() == 0,
        mixer.sys_buffer@.len() == 0,
    ensures
        step_output(mixer.mic_with(mic_blocks), mixer.sys_with(Seq::empty())) == expanded_blocks(
            mic_blocks,
            1,
        ),
        step_rest(mixer.mic_with(mic_blocks), mixer.sys_with(Seq::empty())).len() == 0,
        step_rest(mixer.sys_with(Seq::empty()), mixer.mic_with(mic_blocks)).len() == 0,
        forall|i: int|
            0 <= i < expanded_blocks(mic_blocks, 1).len() / 2 ==> #[trigger] expanded_blocks(
                mic_blocks,
                1,
            )[2 * i] == expanded_blocks(mic_blocks, 1)[2 * i + 1],
{
    let m = mixer.mic_with(mic_blocks);
    let s = mixer.sys_with(Seq::empty());
    assert(m =~= expanded_blocks(mic_blocks, 1));
    assert(s =~= Seq::<i16>::empty());
    lemma_mono_blocks_are_pairs(mic_blocks);
    lemma_starved_pass_through(m);
}

/// The final drain drops nothing: with both buffers in whole pairs, it
/// writes as many samples as the longer buffer holds; the first ones, up
/// to the shorter buffer's end, are genuinely mixed, and the rest are the
/// longer buffer's samples against silence.
pub proof fn lemma_drain_unequal(m: Seq<i16>, s: Seq<i16>)
    requires
        m.len() % 2 == 0,
        s.len() % 2 == 0,
    ensures
        drain_output(m, s).len() == if m.len() >= s.len() { m.len() } else { s.len() },
        forall|i: int|
            0 <= i < m.len() && i < s.len() ==> #[trigger] drain_output(m, s)[i] == mixed(
                m[i],
                s[i],
            ),
        forall|i: int| s.len() <= i < m.len() ==> #[trigger] drain_output(m, s)[i] == m[i],
        forall|i: int| m.len() <= i < s.len() ==> #[trigger] drain_output(m, s)[i] == s[i],
{
    let k = drain_len(m, s);
    assert(leftover(m, k) =~= Seq::<i16>::empty());
    assert(leftover(s, k) =~= Seq::<i16>::empty());
    let d = drain_output(m, s);
    assert forall|i: int| s.len() <= i < m.len() implies #[trigger] d[i] == m[i] by {
        lemma_mixed_with_silence(m[i]);
    }
    assert forall|i: int| m.len() <= i < s.len() implies #[trigger] d[i] == s[i] by {
        lemma_mixed_with_silence(s[i]);
    }
}


/// The samples of several arrivals, one after another.
pub open spec fn concat_all(arrivals: Seq<Seq<i16>>) -> Seq<i16>
    decreases arrivals.len(),
{
    if arrivals.len() == 0 {
        Seq::empty()
    } else {
        arrivals[0] + concat_all(arrivals.skip(1))
    }
}

/// What a session writes, from buffer `buf` on, when only the microphone
/// delivers: each round appends an arrival and writes a mixing step, as
/// `Mixer::poll` does while recording; the round after the stop writes a
/// last step and the final drain.
pub open spec fn solo_session(buf: Seq<i16>, arrivals: Seq<Seq<i16>>) -> Seq<i16>
    decreases arrivals.len(),
{
    let e = Seq::<i16>::empty();
    if arrivals.len() == 0 {
        step_output(buf, e) + drain_output(step_rest(buf, e), step_rest(e, buf))
    } else {
        let b = buf + arrivals[0];
        step_output(b, e) + solo_session(step_rest(b, e), arrivals.skip(1))
    }
}

proof fn lemma_solo_step_splits(b: Seq<i16>)
    ensures
        step_output(b, Seq::empty()) + step_rest(b, Seq::empty()) == b,
        step_rest(Seq::empty(), b) == Seq::<i16>::empty(),
{
    let e = Seq::<i16>::empty();
    assert(paired_len(b, e) == 0);
    assert(paired_len(e, b) == 0);
    assert(b.skip(0) =~= b);
    assert(e.skip(0) =~= e);
    assert(mixed_prefix(b, e, 0) =~= e);
    let p = pass_len(b, e);
    assert(b.take(p) + b.skip(p) =~= b);
    assert(step_output(b, e) =~= b.take(p));
    assert(step_rest(e, b) =~= e);
}

/// A source whose counterpart never delivers is written through, whole
/// and in order: the session writes exactly what was buffered and every
/// sample that arrived afterwards, nothing dropped, duplicated or reordered.
pub proof fn lemma_solo_session_in_order(buf: Seq<i16>, arrivals: Seq<Seq<i16>>)
    ensures
        solo_session(buf, arrivals) == buf + concat_all(arrivals),
    decreases arrivals.len(),
{
    let e = Seq::<i16>::empty();
    if arrivals.len() == 0 {
        lemma_solo_step_splits(buf);
        lemma_starved_pass_through(step_rest(buf, e));
        assert(solo_session(buf, arrivals) =~= buf + concat_all(arrivals));
    } else {
        let b = buf + arrivals[0];
        lemma_solo_step_splits(b);
        lemma_solo_session_in_order(step_rest(b, e), arrivals.skip(1));
        assert(solo_session(buf, arrivals) =~= buf + concat_all(arrivals));
    }
}

} // verus!
