//! Debug counters, the debug overlay switches, and a window of the most
//! recent timing samples. The samples' type is left to the caller (frame
//! times in milliseconds are floating point).
use vstd::prelude::*;

verus! {

/// The engine's counters: frames, and the draw calls, vertices and
/// triangles of the current frame, and the textures loaded.
#[derive(Debug, Default)]
pub struct DebugStats {
    pub frame_count: u64,
    pub draw_calls: u32,
    pub vertices_rendered: u32,
    pub triangles_rendered: u32,
    pub textures_loaded: u32,
}

impl DebugStats {
    /// Every counter at zero.
    pub fn new() -> (r: DebugStats)
        ensures
            r.frame_count == 0,
            r.draw_calls == 0,
            r.vertices_rendered == 0,
            r.triangles_rendered == 0,
            r.textures_loaded == 0,
    {
        DebugStats { frame_count: 0, draw_calls: 0, vertices_rendered: 0, triangles_rendered: 0, textures_loaded: 0 }
    }

    /// Starts the counts of a new frame: no draw calls, vertices or triangles.
    pub fn reset_frame_stats(&mut self)
        ensures
            final(self).draw_calls == 0,
            final(self).vertices_rendered == 0,
            final(self).triangles_rendered == 0,
            final(self).frame_count == old(self).frame_count,
            final(self).textures_loaded == old(self).textures_loaded,
    {
        self.draw_calls = 0;
        self.vertices_rendered = 0;
        self.triangles_rendered = 0;
    }

    /// Counts a draw call of `vertices` vertices, which make a third as many triangles.
    pub fn add_draw_call(&mut self, vertices: u32)
        requires
            old(self).draw_calls < u32::MAX,
            old(self).vertices_rendered + vertices <= u32::MAX,
            old(self).triangles_rendered + vertices / 3 <= u32::MAX,
        ensures
            final(self).draw_calls == old(self).draw_calls + 1,
            final(self).vertices_rendered == old(self).vertices_rendered + vertices,
            final(self).triangles_rendered == old(self).triangles_rendered + vertices / 3,
            final(self).frame_count == old(self).frame_count,
            final(self).textures_loaded == old(self).textures_loaded,
    {
        self.draw_calls = self.draw_calls + 1;
        self.vertices_rendered = self.vertices_rendered + vertices;
        self.triangles_rendered = self.triangles_rendered + vertices / 3;
    }
}

/// Which debug views are shown.
pub struct DebugOverlay {
    pub show_fps: bool,
    pub show_stats: bool,
    pub show_profiler: bool,
    pub show_memory: bool,
}

impl Default for DebugOverlay {
    /// The frame rate shown, nothing else.
    fn default() -> (r: DebugOverlay)
        ensures
            r.show_fps,
            !r.show_stats,
            !r.show_profiler,
            !r.show_memory,
    {
        DebugOverlay { show_fps: true, show_stats: false, show_profiler: false, show_memory: false }
    }
}

impl DebugOverlay {
    /// Shows or hides the frame rate.
    pub fn toggle_fps(&mut self)
        ensures
            final(self).show_fps == !old(self).show_fps,
            final(self).show_stats == old(self).show_stats,
            final(self).show_profiler == old(self).show_profiler,
            final(self).show_memory == old(self).show_memory,
    {
        self.show_fps = !self.show_fps;
    }

    /// Shows or hides the counters.
    pub fn toggle_stats(&mut self)
        ensures
            final(self).show_stats == !old(self).show_stats,
            final(self).show_fps == old(self).show_fps,
            final(self).show_profiler == old(self).show_profiler,
            final(self).show_memory == old(self).show_memory,
    {
        self.show_stats = !self.show_stats;
    }

    /// Shows or hides the profiler.
    pub fn toggle_profiler(&mut self)
        ensures
            final(self).show_profiler == !old(self).show_profiler,
            final(self).show_fps == old(self).show_fps,
            final(self).show_stats == old(self).show_stats,
            final(self).show_memory == old(self).show_memory,
    {
        self.show_profiler = !self.show_profiler;
    }
}

/// The last samples taken, at most `max_samples` of them: the storage fills
/// up first, then the oldest sample is overwritten in turn.
pub struct Profiler<T> {
    samples: Vec<T>,
    current_sample: usize,
    max_samples: usize,
}

impl<T: Copy> Profiler<T> {
    /// The samples as stored.
    pub closed spec fn stored(&self) -> Seq<T> {
        self.samples@
    }

    /// The most samples kept.
    pub closed spec fn capacity(&self) -> nat {
        self.max_samples as nat
    }

    /// The samples kept, oldest first.
    pub closed spec fn window(&self) -> Seq<T> {
        if self.samples@.len() < self.max_samples {
            self.samples@
        } else {
            self.samples@.subrange(self.current_sample as int, self.samples@.len() as int)
                + self.samples@.subrange(0, self.current_sample as int)
        }
    }

    /// The storage never holds more than the capacity; while it fills up the
    /// oldest sample is the first, and once full the next to be overwritten is within it.
    pub closed spec fn wf(&self) -> bool {
        &&& self.samples@.len() <= self.max_samples
        &&& self.samples@.len() < self.max_samples ==> self.current_sample == 0
        &&& self.current_sample == 0 || self.current_sample < self.samples@.len()
    }

    /// No samples yet; at most `max_samples` will be kept.
    pub fn new(max_samples: usize) -> (r: Profiler<T>)
        ensures
            r.wf(),
            r.capacity() == max_samples,
            r.window() == Seq::<T>::empty(),
    {
        Profiler { samples: Vec::new(), current_sample: 0, max_samples }
    }

    /// Keeps `sample`; once `max_samples` are kept, the oldest goes. A
    /// profiler that keeps no samples cannot take one.
    pub fn record(&mut self, sample: T)
        requires
            old(self).wf(),
            old(self).capacity() > 0,
        ensures
            final(self).wf(),
            final(self).capacity() == old(self).capacity(),
            final(self).window() == if old(self).window().len() < old(self).capacity() {
                old(self).window().push(sample)
            } else {
                old(self).window().push(sample).drop_first()
            },
    {
        let ghost a = self.samples@;
        let ghost c = self.current_sample as int;
        if self.samples.len() < self.max_samples {
            self.samples.push(sample);
            proof {
                let b = self.samples@;
                assert(b.subrange(0, b.len() as int) =~= b);
                assert(b.subrange(0, 0) =~= Seq::<T>::empty());
                assert(b.subrange(0, b.len() as int) + b.subrange(0, 0) =~= b);
            }
        } else {
            self.samples.set(self.current_sample, sample);
            let next = self.current_sample + 1;
            self.current_sample = if next == self.max_samples { 0 } else { next };
            proof {
                let n = a.len() as int;
                let b = self.samples@;
                let w = a.subrange(c, n) + a.subrange(0, c);
                assert(old(self).window() == w);
                if c + 1 < n {
                    assert(self.current_sample == c + 1);
                    assert(b.subrange(c + 1, n) =~= a.subrange(c + 1, n));
                    assert(b.subrange(0, c + 1) =~= a.subrange(0, c).push(sample));
                    assert(w.push(sample).drop_first() =~= a.subrange(c + 1, n) + a.subrange(0, c).push(sample));
                    assert(self.window() =~= w.push(sample).drop_first());
                } else {
                    assert(self.current_sample == 0);
                    assert(b.subrange(0, n) =~= a.subrange(0, c).push(sample));
                    assert(b.subrange(0, 0) =~= Seq::<T>::empty());
                    assert(w.push(sample).drop_first() =~= a.subrange(0, c).push(sample));
                    assert(self.window() =~= w.push(sample).drop_first());
                }
            }
        }
    }

    /// The samples kept, oldest first.
    pub fn samples(&self) -> (r: Vec<T>)
        requires
            self.wf(),
        ensures
            r@ == self.window(),
    {
        let n = self.samples.len();
        let mut r: Vec<T> = Vec::new();
        let start = if n < self.max_samples { 0 } else { self.current_sample };
        let mut i: usize = start;
        while i < n
            invariant
                start <= i <= n,
                n == self.samples@.len(),
                r@ == self.samples@.subrange(start as int, i as int),
            decreases n - i,
        {
            r.push(self.samples[i]);
            i = i + 1;
            proof {
                assert(r@ =~= self.samples@.subrange(start as int, i as int));
            }
        }
        let mut j: usize = 0;
        while j < start
            invariant
                j <= start <= n,
                n == self.samples@.len(),
                r@ == self.samples@.subrange(start as int, n as int) + self.samples@.subrange(0, j as int),
            decreases start - j,
        {
            r.push(self.samples[j]);
            j = j + 1;
            proof {
                assert(r@ =~= self.samples@.subrange(start as int, n as int) + self.samples@.subrange(0, j as int));
            }
        }
        proof {
            if n < self.max_samples {
                assert(self.samples@.subrange(0, n as int) =~= self.samples@);
                assert(r@ =~= self.samples@);
            }
        }
        r
    }

    /// The number of samples kept.
    pub fn sample_count(&self) -> (r: usize)
        requires
            self.wf(),
        ensures
            r == self.window().len(),
    {
        self.samples.len()
    }
}

} // verus!
