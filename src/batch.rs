//! The batch scheduler: the app table, each hart's stacks and execution
//! window, and the run loop that loads one app after another.
use vstd::prelude::*;
use crate::context::{TrapContext, is_initial_context, TRAP_CONTEXT_SIZE};

verus! {

/// Size of each hart's user stack.
pub const USER_STACK_SIZE: usize = 8192;
/// Size of each hart's kernel stack.
pub const KERNEL_STACK_SIZE: usize = 8192;
/// Capacity of the app table.
pub const MAX_APP_NUM: usize = 16;
/// Number of harts with their own stacks and window.
pub const MAX_CPU_NUM: usize = 4;
/// Address of hart 0's execution window.
pub const APP_BASE_ADDRESS: usize = 0x8028_0000;
/// Size of each execution window, and the largest image it takes.
pub const APP_SIZE_LIMIT: usize = 0x20000;

/// A hart's kernel stack: the address of its region and the one context that
/// lives near its top.
pub struct KernelStack {
    pub base: usize,
    pub live: Option<TrapContext>,
}

impl KernelStack {
    pub open spec fn wf(&self) -> bool {
        self.base + KERNEL_STACK_SIZE <= usize::MAX
    }

    /// The address of the topmost context slot.
    pub open spec fn context_addr(&self) -> int {
        self.base + KERNEL_STACK_SIZE - TRAP_CONTEXT_SIZE
    }

    pub fn new(base: usize) -> (s: KernelStack)
        requires
            base + KERNEL_STACK_SIZE <= usize::MAX,
        ensures
            s.wf(),
            s.base == base,
            s.live is None,
    {
        KernelStack { base, live: None }
    }

    /// The stack pointer of the empty stack: the end of the region.
    pub fn get_sp(&self) -> (sp: usize)
        requires
            self.wf(),
        ensures
            sp == self.base + KERNEL_STACK_SIZE,
    {
        self.base + KERNEL_STACK_SIZE
    }

    /// Places `cx` just below the top of the stack, superseding the context
    /// that lived there, and returns its address.
    pub fn push_context(&mut self, cx: TrapContext) -> (addr: usize)
        requires
            old(self).wf(),
        ensures
            final(self).base == old(self).base,
            final(self).live == Some(cx),
            addr == old(self).context_addr(),
    {
        let addr = self.get_sp() - TRAP_CONTEXT_SIZE;
        self.live = Some(cx);
        addr
    }
}

/// A hart's user stack.
pub struct UserStack {
    pub base: usize,
}

impl UserStack {
    pub open spec fn wf(&self) -> bool {
        self.base + USER_STACK_SIZE <= usize::MAX
    }

    /// The stack pointer of the empty stack: the end of the region.
    pub fn get_sp(&self) -> (sp: usize)
        requires
            self.wf(),
        ensures
            sp == self.base + USER_STACK_SIZE,
    {
        self.base + USER_STACK_SIZE
    }
}

/// The address at which hart `hart_id` runs its app.
pub open spec fn app_base(hart_id: usize) -> int {
    APP_BASE_ADDRESS + hart_id * APP_SIZE_LIMIT
}

/// What one hart owns: its identifier, its two stacks and the contents of its
/// execution window.
pub struct Hart {
    pub id: usize,
    pub kernel_stack: KernelStack,
    pub user_stack: UserStack,
    pub window: Vec<u8>,
}

impl Hart {
    pub open spec fn wf(&self) -> bool {
        &&& self.id < MAX_CPU_NUM
        &&& self.kernel_stack.wf()
        &&& self.user_stack.wf()
        &&& self.window@.len() == APP_SIZE_LIMIT
    }

    /// A hart with empty stacks at the given addresses and a zeroed window.
    pub fn new(id: usize, kernel_stack_base: usize, user_stack_base: usize) -> (h: Hart)
        requires
            id < MAX_CPU_NUM,
            kernel_stack_base + KERNEL_STACK_SIZE <= usize::MAX,
            user_stack_base + USER_STACK_SIZE <= usize::MAX,
        ensures
            h.wf(),
            h.id == id,
            h.kernel_stack.base == kernel_stack_base,
            h.kernel_stack.live is None,
            h.user_stack.base == user_stack_base,
            forall|k: int| 0 <= k < APP_SIZE_LIMIT ==> h.window@[k] == 0,
    {
        let mut window: Vec<u8> = Vec::new();
        let mut k: usize = 0;
        while k < APP_SIZE_LIMIT
            invariant
                k <= APP_SIZE_LIMIT,
                window@.len() == k,
                forall|j: int| 0 <= j < k ==> window@[j] == 0,
            decreases APP_SIZE_LIMIT - k,
        {
            window.push(0u8);
            k = k + 1;
        }
        Hart {
            id,
            kernel_stack: KernelStack::new(kernel_stack_base),
            user_stack: UserStack { base: user_stack_base },
            window,
        }
    }
}

/// The window after `image` is loaded: the image, then zeros to the end.
pub open spec fn loaded_window(image: Seq<u8>) -> Seq<u8> {
    Seq::new(APP_SIZE_LIMIT as nat, |k: int| if k < image.len() { image[k] } else { 0u8 })
}

/// Sets every byte of `window` to zero.
pub fn clear_window(window: &mut Vec<u8>)
    ensures
        final(window)@.len() == old(window)@.len(),
        forall|k: int| 0 <= k < final(window)@.len() ==> final(window)@[k] == 0,
{
    let n = window.len();
    let mut k: usize = 0;
    while k < n
        invariant
            k <= n,
            window@.len() == n,
            forall|j: int| 0 <= j < k ==> window@[j] == 0,
        decreases n - k,
    {
        window.set(k, 0u8);
        k = k + 1;
    }
}

/// What loading an app did.
#[derive(PartialEq, Eq, Structural, Debug, Clone, Copy)]
pub enum LoadOutcome {
    /// Every app has run: nothing was copied and the hart should idle.
    NoAppToRun,
    /// `len` bytes from address `src` now start the window.
    Loaded { src: usize, len: usize },
}

/// What one turn of the run loop did on a hart.
#[derive(PartialEq, Eq, Structural, Debug, Clone, Copy)]
pub enum RunStep {
    /// No app is left: the hart idles for good.
    Halted,
    /// App `app_id` was loaded at `entry`, and its initial context pushed at
    /// `cx_addr` on the kernel stack, ready to be restored.
    Launched { app_id: usize, entry: usize, cx_addr: usize },
}

/// Why a raw app table was refused.
#[derive(PartialEq, Eq, Structural, Debug, Clone, Copy)]
pub enum AppTableError {
    /// The table ends before its count or before its last boundary.
    Truncated,
    /// The count exceeds the table's capacity.
    TooManyApps,
    /// A boundary lies below the one before it.
    Unordered,
    /// The images do not lie inside the memory handed over with the table.
    OutsideImages,
    /// An image is larger than the execution window.
    ImageTooLarge,
}

/// Every boundary is at least the one before it.
pub open spec fn nondecreasing(s: Seq<usize>) -> bool {
    forall|i: int, j: int| 0 <= i <= j < s.len() ==> s[i] <= s[j]
}

/// The images that `bounds` delimits lie in `[base, base + len)`.
pub open spec fn within_images(bounds: Seq<usize>, base: usize, len: nat) -> bool {
    base <= bounds[0] && bounds.last() <= base + len
}

/// No image that `bounds` delimits is larger than the window.
pub open spec fn images_fit(bounds: Seq<usize>) -> bool {
    forall|i: int| 0 <= i < bounds.len() - 1 ==> bounds[i + 1] - #[trigger] bounds[i] <= APP_SIZE_LIMIT
}

/// The raw table holds a count within capacity and that many images' boundaries.
pub open spec fn table_complete(raw: Seq<usize>) -> bool {
    raw.len() > 0 && raw[0] <= MAX_APP_NUM && raw.len() >= raw[0] + 2
}

/// The boundaries in a complete raw table.
pub open spec fn table_bounds(raw: Seq<usize>) -> Seq<usize> {
    raw.subrange(1, raw[0] + 2)
}

/// The app count, the cursor of the next app, the N+1 boundaries of the N
/// images, and the memory at `image_base` that holds those images.
pub struct AppManagerInner {
    pub num_app: usize,
    pub current_app: usize,
    pub app_start: Vec<usize>,
    pub image_base: usize,
    pub images: Vec<u8>,
}

impl AppManagerInner {
    pub open spec fn wf(&self) -> bool {
        &&& self.num_app <= MAX_APP_NUM
        &&& self.app_start@.len() == self.num_app + 1
        &&& nondecreasing(self.app_start@)
        &&& within_images(self.app_start@, self.image_base, self.images@.len())
        &&& images_fit(self.app_start@)
    }

    /// The bytes of app `i`.
    pub open spec fn app_image(&self, i: int) -> Seq<u8> {
        self.images@.subrange(
            self.app_start@[i] - self.image_base,
            self.app_start@[i + 1] - self.image_base,
        )
    }

    /// The app that the next turn of the run loop launches, if any is left.
    pub open spec fn next_launch(&self) -> Option<usize> {
        if self.current_app < self.num_app {
            Some(self.current_app)
        } else {
            None
        }
    }

    /// The scheduler after one turn of the run loop.
    pub open spec fn after_turn(self) -> AppManagerInner {
        if self.current_app < self.num_app {
            AppManagerInner { current_app: (self.current_app + 1) as usize, ..self }
        } else {
            self
        }
    }
}

impl AppManagerInner {
    /// Reads a raw table `[count, boundary_0, .., boundary_count]` whose
    /// images lie in `images`, placed at `image_base`; the cursor starts at 0.
    pub fn from_raw(raw: &Vec<usize>, image_base: usize, images: Vec<u8>) -> (r: Result<AppManagerInner, AppTableError>)
        requires
            image_base + images@.len() <= usize::MAX,
        ensures
            r is Ok <==> table_complete(raw@) && nondecreasing(table_bounds(raw@))
                && within_images(table_bounds(raw@), image_base, images@.len())
                && images_fit(table_bounds(raw@)),
            r == Err::<AppManagerInner, AppTableError>(AppTableError::Truncated) <==> raw@.len() == 0
                || (raw@[0] <= MAX_APP_NUM && raw@.len() < raw@[0] + 2),
            r == Err::<AppManagerInner, AppTableError>(AppTableError::TooManyApps) <==> raw@.len() > 0
                && raw@[0] > MAX_APP_NUM,
            r == Err::<AppManagerInner, AppTableError>(AppTableError::Unordered) <==> table_complete(raw@)
                && !nondecreasing(table_bounds(raw@)),
            r == Err::<AppManagerInner, AppTableError>(AppTableError::OutsideImages) <==> table_complete(raw@)
                && nondecreasing(table_bounds(raw@))
                && !within_images(table_bounds(raw@), image_base, images@.len()),
            r == Err::<AppManagerInner, AppTableError>(AppTableError::ImageTooLarge) <==> table_complete(raw@)
                && nondecreasing(table_bounds(raw@))
                && within_images(table_bounds(raw@), image_base, images@.len())
                && !images_fit(table_bounds(raw@)),
            r matches Ok(m) ==> {
                &&& m.wf()
                &&& m.num_app == raw@[0]
                &&& m.current_app == 0
                &&& m.app_start@ == table_bounds(raw@)
                &&& m.image_base == image_base
                &&& m.images@ == images@
            },
    {
        if raw.len() == 0 {
            return Err(AppTableError::Truncated);
        }
        let num_app = raw[0];
        if num_app > MAX_APP_NUM {
            return Err(AppTableError::TooManyApps);
        }
        if raw.len() < num_app + 2 {
            return Err(AppTableError::Truncated);
        }
        let ghost bounds = table_bounds(raw@);
        let mut app_start: Vec<usize> = Vec::new();
        let mut i: usize = 0;
        while i <= num_app
            invariant
                table_complete(raw@),
                num_app == raw@[0],
                bounds == table_bounds(raw@),
                i <= num_app + 1,
                app_start@ == bounds.subrange(0, i as int),
                nondecreasing(app_start@),
            decreases num_app + 1 - i,
        {
            let b = raw[i + 1];
            if i > 0 && b < app_start[i - 1] {
                assert(!nondecreasing(bounds)) by {
                    assert(bounds[i - 1] > bounds[i as int]);
                }
                return Err(AppTableError::Unordered);
            }
            app_start.push(b);
            i = i + 1;
        }
        assert(app_start@ == bounds);
        if app_start[0] < image_base || app_start[num_app] - image_base > images.len() {
            return Err(AppTableError::OutsideImages);
        }
        let mut j: usize = 0;
        while j < num_app
            invariant
                table_complete(raw@),
                num_app == raw@[0],
                bounds == table_bounds(raw@),
                app_start@ == bounds,
                bounds.len() == num_app + 1,
                nondecreasing(bounds),
                within_images(bounds, image_base, images@.len()),
                j <= num_app,
                forall|k: int| 0 <= k < j ==> bounds[k + 1] - #[trigger] bounds[k] <= APP_SIZE_LIMIT,
            decreases num_app - j,
        {
            assert(bounds[j as int] <= bounds[j + 1]);
            if app_start[j + 1] - app_start[j] > APP_SIZE_LIMIT {
                assert(!images_fit(bounds)) by {
                    assert(bounds[j + 1] - bounds[j as int] > APP_SIZE_LIMIT);
                }
                return Err(AppTableError::ImageTooLarge);
            }
            j = j + 1;
        }
        Ok(AppManagerInner { num_app, current_app: 0, app_start, image_base, images })
    }

    /// The address at which hart `hart_id` runs its app.
    pub fn app_base_addr(hart_id: usize) -> (addr: usize)
        requires
            hart_id < MAX_CPU_NUM,
        ensures
            addr == app_base(hart_id),
    {
        APP_BASE_ADDRESS + hart_id * APP_SIZE_LIMIT
    }

    /// The index of the next app to run.
    pub fn get_current_app(&self) -> (i: usize)
        ensures
            i == self.current_app,
    {
        self.current_app
    }

    /// Moves the cursor to the following app; exhaustion is found by the next load.
    pub fn move_to_next_app(&mut self)
        requires
            old(self).current_app < usize::MAX,
        ensures
            *final(self) == (AppManagerInner { current_app: (old(self).current_app + 1) as usize, ..*old(self) }),
    {
        self.current_app = self.current_app + 1;
    }

    /// The bounds `[start, end)` of app `app_id`, or `None` past the last app.
    pub fn app_range(&self, app_id: usize) -> (r: Option<(usize, usize)>)
        requires
            self.wf(),
        ensures
            app_id >= self.num_app ==> r is None,
            app_id < self.num_app ==> r == Some((self.app_start@[app_id as int], self.app_start@[app_id + 1])),
    {
        if app_id >= self.num_app {
            None
        } else {
            Some((self.app_start[app_id], self.app_start[app_id + 1]))
        }
    }

    /// Loads app `app_id` into `window`: the window is zeroed whole, then the
    /// app's bytes are copied to its start. Past the last app nothing is copied.
    pub fn load_app(&self, app_id: usize, window: &mut Vec<u8>) -> (r: LoadOutcome)
        requires
            self.wf(),
            old(window)@.len() == APP_SIZE_LIMIT,
        ensures
            app_id >= self.num_app ==> r == LoadOutcome::NoAppToRun && final(window)@ == old(window)@,
            app_id < self.num_app ==> {
                &&& r == (LoadOutcome::Loaded {
                    src: self.app_start@[app_id as int],
                    len: (self.app_start@[app_id + 1] - self.app_start@[app_id as int]) as usize,
                })
                &&& final(window)@ == loaded_window(self.app_image(app_id as int))
            },
    {
        if app_id >= self.num_app {
            return LoadOutcome::NoAppToRun;
        }
        proof {
            assert(self.app_start@[0] <= self.app_start@[app_id as int]);
            assert(self.app_start@[app_id + 1] <= self.app_start@[self.num_app as int]);
            assert(self.app_start@[app_id + 1] - #[trigger] self.app_start@[app_id as int] <= APP_SIZE_LIMIT);
        }
        clear_window(window);
        let src = self.app_start[app_id];
        let len = self.app_start[app_id + 1] - src;
        let offset = src - self.image_base;
        let ghost image = self.app_image(app_id as int);
        let mut k: usize = 0;
        while k < len
            invariant
                self.wf(),
                app_id < self.num_app,
                image == self.app_image(app_id as int),
                offset == src - self.image_base,
                src == self.app_start@[app_id as int],
                len == self.app_start@[app_id + 1] - src,
                len <= APP_SIZE_LIMIT,
                offset + len <= self.images@.len(),
                k <= len,
                window@.len() == APP_SIZE_LIMIT,
                forall|j: int| 0 <= j < k ==> window@[j] == image[j],
                forall|j: int| k <= j < APP_SIZE_LIMIT ==> window@[j] == 0,
            decreases len - k,
        {
            window.set(k, self.images[offset + k]);
            k = k + 1;
        }
        assert(window@ =~= loaded_window(image));
        LoadOutcome::Loaded { src, len }
    }
}

/// `new_manager`, `new_hart` and `r` are what one turn of the run loop makes
/// of `old_manager` and `old_hart`: past the last app the hart halts and
/// nothing changes; otherwise the app under the cursor fills the window, the
/// cursor moves on, and the app's initial context is the live one.
#[verifier::opaque]
pub open spec fn turn_taken(
    old_manager: AppManagerInner,
    new_manager: AppManagerInner,
    old_hart: Hart,
    new_hart: Hart,
    current_status: usize,
    r: RunStep,
) -> bool {
    &&& new_manager == old_manager.after_turn()
    &&& (old_manager.next_launch() is None ==> {
        &&& r == RunStep::Halted
        &&& new_hart.id == old_hart.id
        &&& new_hart.kernel_stack == old_hart.kernel_stack
        &&& new_hart.user_stack == old_hart.user_stack
        &&& new_hart.window@ == old_hart.window@
    })
    &&& (old_manager.next_launch() matches Some(i) ==> {
        &&& r == (RunStep::Launched {
            app_id: i,
            entry: app_base(old_hart.id) as usize,
            cx_addr: old_hart.kernel_stack.context_addr() as usize,
        })
        &&& new_hart.id == old_hart.id
        &&& new_hart.kernel_stack.base == old_hart.kernel_stack.base
        &&& new_hart.user_stack == old_hart.user_stack
        &&& new_hart.window@ == loaded_window(old_manager.app_image(i as int))
        &&& new_hart.kernel_stack.live matches Some(cx) && is_initial_context(
            cx,
            app_base(old_hart.id) as usize,
            (old_hart.user_stack.base + USER_STACK_SIZE) as usize,
            current_status,
        )
    })
}

/// After a turn of the run loop the table and the images are those from
/// before, and the cursor has moved to the next app, or stayed where it was
/// if no app was left.
pub proof fn lemma_turn_scheduler(
    old_manager: AppManagerInner,
    new_manager: AppManagerInner,
    old_hart: Hart,
    new_hart: Hart,
    current_status: usize,
    r: RunStep,
)
    requires
        turn_taken(old_manager, new_manager, old_hart, new_hart, current_status, r),
    ensures
        new_manager.num_app == old_manager.num_app,
        new_manager.app_start@ == old_manager.app_start@,
        new_manager.images@ == old_manager.images@,
        old_manager.current_app < old_manager.num_app ==> new_manager.current_app == old_manager.current_app + 1
            && (r matches RunStep::Launched { app_id, .. } && app_id == old_manager.current_app),
        old_manager.current_app >= old_manager.num_app ==> new_manager.current_app == old_manager.current_app
            && r == RunStep::Halted,
{
    reveal(turn_taken);
}

/// Neither the scheduler nor the hart changed.
#[verifier::opaque]
pub open spec fn untouched(old_manager: AppManagerInner, new_manager: AppManagerInner, old_hart: Hart, new_hart: Hart) -> bool {
    &&& new_manager == old_manager
    &&& new_hart.id == old_hart.id
    &&& new_hart.kernel_stack == old_hart.kernel_stack
    &&& new_hart.user_stack == old_hart.user_stack
    &&& new_hart.window@ == old_hart.window@
}

/// One turn of the run loop on `hart`: load the app under the cursor, move
/// the cursor on, and push the context that starts the app. `current_status`
/// is the hart's status register, from which the app's status is derived.
/// The caller releases the scheduler before it restores the pushed context.
pub fn run_next_app(manager: &mut AppManagerInner, hart: &mut Hart, current_status: usize) -> (r: RunStep)
    requires
        old(manager).wf(),
        old(hart).wf(),
    ensures
        final(manager).wf(),
        final(hart).wf(),
        turn_taken(*old(manager), *final(manager), *old(hart), *final(hart), current_status, r),
{
    let ghost m0 = *manager;
    let ghost h0 = *hart;
    reveal(turn_taken);
    let current_app = manager.get_current_app();
    let outcome = manager.load_app(current_app, &mut hart.window);
    if outcome == LoadOutcome::NoAppToRun {
        assert(m0.after_turn() == m0);
        return RunStep::Halted;
    }
    manager.move_to_next_app();
    let entry = AppManagerInner::app_base_addr(hart.id);
    let sp = hart.user_stack.get_sp();
    let cx = TrapContext::app_init_context(entry, sp, current_status);
    let cx_addr = hart.kernel_stack.push_context(cx);
    let r = RunStep::Launched { app_id: current_app, entry, cx_addr };
    assert(*manager == m0.after_turn());
    assert(m0.next_launch() == Some(current_app));
    assert(hart.window@ == loaded_window(m0.app_image(current_app as int)));
    assert(hart.kernel_stack.live == Some(cx));
    r
}

/// The app that each of `turns` turns of the run loop launches, in order,
/// starting from `m`; `None` marks a turn that halted.
pub open spec fn launches(m: AppManagerInner, turns: nat) -> Seq<Option<usize>>
    decreases turns,
{
    if turns == 0 {
        Seq::empty()
    } else {
        seq![m.next_launch()] + launches(m.after_turn(), (turns - 1) as nat)
    }
}

proof fn lemma_launches_from(m: AppManagerInner, turns: nat)
    requires
        m.current_app + turns <= m.num_app,
    ensures
        launches(m, turns) == Seq::new(turns, |i: int| Some((m.current_app + i) as usize)),
    decreases turns,
{
    if turns > 0 {
        lemma_launches_from(m.after_turn(), (turns - 1) as nat);
        assert(launches(m, turns) =~= Seq::new(turns, |i: int| Some((m.current_app + i) as usize)));
    }
}

/// Starting from a fresh scheduler with N apps, N turns of the run loop
/// launch apps 0, 1, ..., N-1 in that order, none twice and none skipped,
/// and the turn after them halts.
pub proof fn lemma_batch_order(m: AppManagerInner)
    requires
        m.wf(),
        m.current_app == 0,
    ensures
        launches(m, m.num_app as nat) == Seq::new(m.num_app as nat, |i: int| Some(i as usize)),
        launches(m, (m.num_app + 1) as nat) == Seq::new(m.num_app as nat, |i: int| Some(i as usize)).push(None),
{
    let n = m.num_app as nat;
    lemma_launches_from(m, n);
    assert(launches(m, n) =~= Seq::new(n, |i: int| Some(i as usize)));
    lemma_after_turns(m, n);
    lemma_launches_split(m, n, 1);
    let t = turns_after(m, n);
    assert(t.next_launch() is None);
    assert(launches(t.after_turn(), 0) == Seq::<Option<usize>>::empty());
    assert(launches(t, 1) =~= seq![None::<usize>]);
    assert(launches(m, n + 1) =~= Seq::new(n, |i: int| Some(i as usize)).push(None));
}

/// The scheduler after `turns` turns of the run loop from `m`.
pub open spec fn turns_after(m: AppManagerInner, turns: nat) -> AppManagerInner
    decreases turns,
{
    if turns == 0 {
        m
    } else {
        turns_after(m.after_turn(), (turns - 1) as nat)
    }
}

proof fn lemma_after_turns(m: AppManagerInner, turns: nat)
    requires
        m.current_app + turns <= m.num_app,
    ensures
        turns_after(m, turns).current_app == m.current_app + turns,
        turns_after(m, turns).num_app == m.num_app,
    decreases turns,
{
    if turns > 0 {
        lemma_after_turns(m.after_turn(), (turns - 1) as nat);
    }
}

proof fn lemma_launches_split(m: AppManagerInner, a: nat, b: nat)
    ensures
        launches(m, a + b) == launches(m, a) + launches(turns_after(m, a), b),
    decreases a,
{
    if a == 0 {
        assert(launches(m, a) + launches(turns_after(m, a), b) =~= launches(m, a + b));
    } else {
        lemma_launches_split(m.after_turn(), (a - 1) as nat, b);
        assert((a + b - 1) as nat == (a - 1) as nat + b);
        assert(launches(m, a + b) =~= launches(m, a) + launches(turns_after(m, a), b));
    }
}

} // verus!
