//! The session controller: the state machine that owns the current mode,
//! interface list, selection cursor and active interface, and folds each
//! tick's batch of input events into state transitions.

use vstd::prelude::*;

use crate::capture::interface::InterfaceProvider;
use crate::capture::packet_source::PacketSource;
use crate::contains_name;
use crate::error::AppError;
use crate::events::Event;
use crate::events::KeyCode;
use crate::events::KeyEventKind;
use crate::events::is_quit_press;
use crate::events::key_press;
use crate::events::repeated;

verus! {

/// The current phase of interaction. Exactly one is active at a time, and
/// `Capturing` is absorbing within a session's lifetime.
#[derive(Clone, Copy, Debug)]
pub enum AppMode {
    SelectInterface,
    Capturing,
}

/// The mathematical model of a session: the controller's five owned fields,
/// with interface names as sequences of characters.
pub ghost struct SessionView {
    pub mode: AppMode,
    pub interfaces: Seq<Seq<char>>,
    pub selected_index: int,
    pub should_quit: bool,
    pub active_interface: Option<Seq<char>>,
}

impl SessionView {
    /// The session invariant: a non-empty interface list, an in-bounds
    /// cursor, and an active interface exactly while capturing.
    pub open spec fn wf(self) -> bool {
        &&& self.interfaces.len() > 0
        &&& 0 <= self.selected_index < self.interfaces.len()
        &&& (self.mode is Capturing ==> self.active_interface is Some)
        &&& (self.mode is SelectInterface ==> self.active_interface is None)
    }
}

/// The transition rule for one key press while selecting an interface.
pub open spec fn step_select_key(s: SessionView, code: KeyCode) -> SessionView {
    match code {
        KeyCode::Up => SessionView {
            selected_index: if s.selected_index <= 0 {
                0
            } else {
                s.selected_index - 1
            },
            ..s
        },
        KeyCode::Down => {
            let last = if s.interfaces.len() == 0 {
                0int
            } else {
                s.interfaces.len() - 1
            };
            SessionView {
                selected_index: if s.selected_index < last {
                    s.selected_index + 1
                } else {
                    last
                },
                ..s
            }
        },
        KeyCode::Enter => if 0 <= s.selected_index < s.interfaces.len() {
            SessionView {
                mode: AppMode::Capturing,
                active_interface: Some(s.interfaces[s.selected_index]),
                ..s
            }
        } else {
            s
        },
        KeyCode::Char(c) => if c == 'q' {
            SessionView { should_quit: true, ..s }
        } else {
            s
        },
        KeyCode::Other => s,
    }
}

/// The transition rule for one key press while capturing: only quit acts.
pub open spec fn step_capture_key(s: SessionView, code: KeyCode) -> SessionView {
    match code {
        KeyCode::Char(c) => if c == 'q' {
            SessionView { should_quit: true, ..s }
        } else {
            s
        },
        _ => s,
    }
}

/// The transition rule for one input event: non-key events and key signals
/// that are not presses are ignored.
pub open spec fn step(s: SessionView, e: Event) -> SessionView {
    match e {
        Event::Key(k) => if k.kind is Press {
            match s.mode {
                AppMode::SelectInterface => step_select_key(s, k.code),
                AppMode::Capturing => step_capture_key(s, k.code),
            }
        } else {
            s
        },
        Event::Other => s,
    }
}

/// The transition rule folded over a batch of events, in order.
pub open spec fn steps(s: SessionView, es: Seq<Event>) -> SessionView
    decreases es.len(),
{
    if es.len() == 0 {
        s
    } else {
        steps(step(s, es[0]), es.skip(1))
    }
}

/// The controller's complete state for one run, generic over the acquisition
/// capabilities so scripted doubles and OS-backed backends interchange freely.
pub struct App<S: PacketSource, I: InterfaceProvider> {
    pub mode: AppMode,
    pub interfaces: Vec<String>,
    pub selected_index: usize,
    pub should_quit: bool,
    pub active_interface: Option<String>,
    source: S,
    _provider: core::marker::PhantomData<I>,
}

impl<S: PacketSource, I: InterfaceProvider> View for App<S, I> {
    type V = SessionView;

    closed spec fn view(&self) -> SessionView {
        SessionView {
            mode: self.mode,
            interfaces: self.interfaces.deep_view(),
            selected_index: self.selected_index as int,
            should_quit: self.should_quit,
            active_interface: match self.active_interface {
                Some(name) => Some(name@),
                None => None,
            },
        }
    }
}

impl<S: PacketSource, I: InterfaceProvider> App<S, I> {
    /// The session invariant, established by construction and preserved by
    /// every transition.
    pub open spec fn wf(&self) -> bool {
        self@.wf()
    }

    /// The ghost count of frames the session's packet source still has
    /// available without waiting.
    pub closed spec fn packets_pending(&self) -> nat {
        self.source.pending()
    }

    /// Construct a session: enumerate interfaces through `provider`, fail
    /// fast on enumeration failure, an empty list, or an explicitly requested
    /// name absent from the list; otherwise start selecting, or start
    /// capturing directly on the requested name.
    pub fn new(source: S, provider: &I, interface_flag: Option<String>) -> (r: Result<
        Self,
        AppError,
    >)
        ensures
            match r {
                Ok(app) => {
                    &&& !provider.fails()
                    &&& provider.names().len() > 0
                    &&& app.wf()
                    &&& app@.interfaces == provider.names()
                    &&& app@.selected_index == 0
                    &&& !app@.should_quit
                    &&& app.packets_pending() == source.pending()
                    &&& match interface_flag {
                        Some(name) => {
                            &&& provider.names().contains(name@)
                            &&& app@.mode is Capturing
                            &&& app@.active_interface == Some(name@)
                        },
                        None => {
                            &&& app@.mode is SelectInterface
                            &&& app@.active_interface is None
                        },
                    }
                },
                Err(e) => match e {
                    AppError::Interface(_) => provider.fails(),
                    AppError::NoInterfaces => !provider.fails() && provider.names().len() == 0,
                    AppError::InterfaceNotFound(name) => {
                        &&& !provider.fails()
                        &&& provider.names().len() > 0
                        &&& interface_flag matches Some(f) && f@ == name@
                        &&& !provider.names().contains(name@)
                    },
                    AppError::PermissionDenied => false,
                },
            },
    {
        let interfaces = match provider.list_interfaces() {
            Ok(v) => v,
            Err(e) => {
                return Err(AppError::Interface(e));
            },
        };

        if interfaces.len() == 0 {
            return Err(AppError::NoInterfaces);
        }

        if let Some(name) = interface_flag {
            if !contains_name(interfaces.as_slice(), &name) {
                return Err(AppError::InterfaceNotFound(name));
            }
            Ok(
                App {
                    mode: AppMode::Capturing,
                    interfaces,
                    selected_index: 0,
                    should_quit: false,
                    active_interface: Some(name),
                    source,
                    _provider: core::marker::PhantomData,
                },
            )
        } else {
            Ok(
                App {
                    mode: AppMode::SelectInterface,
                    interfaces,
                    selected_index: 0,
                    should_quit: false,
                    active_interface: None,
                    source,
                    _provider: core::marker::PhantomData,
                },
            )
        }
    }

    /// Apply the transition rule to one input event.
    pub fn handle_event(&mut self, event: Event)
        requires
            old(self).wf(),
        ensures
            final(self)@ == step(old(self)@, event),
            final(self).wf(),
            final(self).packets_pending() == old(self).packets_pending(),
    {
        let k = match event {
            Event::Key(k) => k,
            Event::Other => {
                return ;
            },
        };
        match k.kind {
            KeyEventKind::Press => {},
            _ => {
                return ;
            },
        }

        match self.mode {
            AppMode::SelectInterface => match k.code {
                KeyCode::Up => {
                    self.selected_index = self.selected_index.saturating_sub(1);
                },
                KeyCode::Down => {
                    let last = if self.interfaces.len() == 0 {
                        0
                    } else {
                        self.interfaces.len() - 1
                    };
                    if self.selected_index < last {
                        self.selected_index = self.selected_index + 1;
                    } else {
                        self.selected_index = last;
                    }
                },
                KeyCode::Enter => {
                    if self.selected_index < self.interfaces.len() {
                        let name = self.interfaces[self.selected_index].clone();
                        self.active_interface = Some(name);
                        self.mode = AppMode::Capturing;
                    }
                },
                KeyCode::Char(c) => {
                    if c == 'q' {
                        self.should_quit = true;
                    }
                },
                KeyCode::Other => {},
            },
            AppMode::Capturing => {
                if let KeyCode::Char(c) = k.code {
                    if c == 'q' {
                        self.should_quit = true;
                    }
                }
            },
        }
    }

    /// One processing round: drain every currently available frame from the
    /// packet source, then fold the pending events into the state, in order.
    pub fn tick(&mut self, events: &[Event])
        requires
            old(self).wf(),
        ensures
            final(self)@ == steps(old(self)@, events@),
            final(self).wf(),
            final(self).packets_pending() == 0,
    {
        loop
            invariant
                self.wf(),
                self@ == old(self)@,
            ensures
                self.wf(),
                self@ == old(self)@,
                self.packets_pending() == 0,
            decreases self.source.pending(),
        {
            let p = self.source.next_packet();
            if p.is_none() {
                break ;
            }
        }

        let ghost s0 = self@;
        let mut i: usize = 0;
        while i < events.len()
            invariant
                i <= events@.len(),
                self.wf(),
                self@ == steps(s0, events@.take(i as int)),
                self.packets_pending() == 0,
            decreases events@.len() - i,
        {
            let e = events[i];
            proof {
                assert(events@.take(i as int + 1) =~= events@.take(i as int).push(e));
                lemma_steps_push(s0, events@.take(i as int), e);
            }
            self.handle_event(e);
            i = i + 1;
        }
        proof {
            assert(events@.take(events@.len() as int) =~= events@);
        }
    }
}

/// Law: no transition leaves the session invariant. The cursor stays in
/// bounds and the mode keeps dictating whether an interface is active.
pub proof fn lemma_step_preserves_wf(s: SessionView, e: Event)
    requires
        s.wf(),
    ensures
        step(s, e).wf(),
{
}

/// Law: the session invariant holds across any batch of events.
pub proof fn lemma_steps_preserve_wf(s: SessionView, es: Seq<Event>)
    requires
        s.wf(),
    ensures
        steps(s, es).wf(),
    decreases es.len(),
{
    if es.len() > 0 {
        lemma_step_preserves_wf(s, es[0]);
        lemma_steps_preserve_wf(step(s, es[0]), es.skip(1));
    }
}

/// Law: a press of the quit key sets `should_quit`, in either mode.
pub proof fn lemma_quit_sets_flag(s: SessionView, e: Event)
    requires
        is_quit_press(e),
    ensures
        step(s, e).should_quit,
{
}

/// Law: `should_quit` is irreversible within a session: once set, no batch of
/// events ever clears it.
pub proof fn lemma_quit_irreversible(s: SessionView, es: Seq<Event>)
    requires
        s.should_quit,
    ensures
        steps(s, es).should_quit,
    decreases es.len(),
{
    if es.len() > 0 {
        lemma_quit_irreversible(step(s, es[0]), es.skip(1));
    }
}

/// Law: confirming while selecting always transitions to `Capturing` and
/// activates the interface under the cursor at the moment of confirmation.
pub proof fn lemma_confirm_selects(s: SessionView)
    requires
        s.wf(),
        s.mode is SelectInterface,
    ensures
        step(s, key_press(KeyCode::Enter)).mode is Capturing,
        step(s, key_press(KeyCode::Enter)).active_interface == Some(
            s.interfaces[s.selected_index],
        ),
{
}

/// Law: `Capturing` is absorbing: whatever events arrive, the session stays
/// capturing on the same interface, and the cursor and list are untouched.
pub proof fn lemma_capturing_absorbing(s: SessionView, es: Seq<Event>)
    requires
        s.mode is Capturing,
    ensures
        steps(s, es).mode is Capturing,
        steps(s, es).active_interface == s.active_interface,
        steps(s, es).selected_index == s.selected_index,
        steps(s, es).interfaces == s.interfaces,
    decreases es.len(),
{
    if es.len() > 0 {
        lemma_capturing_absorbing(step(s, es[0]), es.skip(1));
    }
}

/// Law: while capturing, a batch without a quit press changes nothing at all.
pub proof fn lemma_capturing_non_quit_inert(s: SessionView, es: Seq<Event>)
    requires
        s.mode is Capturing,
        forall|i: int| 0 <= i < es.len() ==> !is_quit_press(#[trigger] es[i]),
    ensures
        steps(s, es) == s,
    decreases es.len(),
{
    if es.len() > 0 {
        assert(step(s, es[0]) == s);
        assert forall|i: int| 0 <= i < es.skip(1).len() implies !is_quit_press(
            #[trigger] es.skip(1)[i],
        ) by {
            assert(es.skip(1)[i] == es[i + 1]);
        }
        lemma_capturing_non_quit_inert(s, es.skip(1));
    }
}

/// Law: `n` Down presses from the cursor move it `n` entries towards the end
/// of the list and saturate there, with nothing else changed.
pub proof fn lemma_down_saturates(s: SessionView, n: nat)
    requires
        s.wf(),
        s.mode is SelectInterface,
    ensures
        steps(s, repeated(key_press(KeyCode::Down), n)) == (SessionView {
            selected_index: if s.selected_index + n < s.interfaces.len() {
                s.selected_index + n
            } else {
                s.interfaces.len() - 1
            },
            ..s
        }),
    decreases n,
{
    if n == 0 {
        assert(repeated(key_press(KeyCode::Down), n).len() == 0);
    } else {
        let s1 = step(s, key_press(KeyCode::Down));
        lemma_step_preserves_wf(s, key_press(KeyCode::Down));
        assert(repeated(key_press(KeyCode::Down), n)[0] == key_press(KeyCode::Down));
        assert(repeated(key_press(KeyCode::Down), n).skip(1) =~= repeated(
            key_press(KeyCode::Down),
            (n - 1) as nat,
        ));
        lemma_down_saturates(s1, (n - 1) as nat);
    }
}

/// Law: `n` Up presses from the cursor move it `n` entries towards the start
/// of the list and saturate at zero, with nothing else changed.
pub proof fn lemma_up_saturates(s: SessionView, n: nat)
    requires
        s.wf(),
        s.mode is SelectInterface,
    ensures
        steps(s, repeated(key_press(KeyCode::Up), n)) == (SessionView {
            selected_index: if s.selected_index - n > 0 {
                s.selected_index - n
            } else {
                0
            },
            ..s
        }),
    decreases n,
{
    if n == 0 {
        assert(repeated(key_press(KeyCode::Up), n).len() == 0);
    } else {
        let s1 = step(s, key_press(KeyCode::Up));
        lemma_step_preserves_wf(s, key_press(KeyCode::Up));
        assert(repeated(key_press(KeyCode::Up), n)[0] == key_press(KeyCode::Up));
        assert(repeated(key_press(KeyCode::Up), n).skip(1) =~= repeated(
            key_press(KeyCode::Up),
            (n - 1) as nat,
        ));
        lemma_up_saturates(s1, (n - 1) as nat);
    }
}

/// Folding a batch that ends in `e` is folding the batch and then applying
/// `e`: batched processing equals sequential application, event by event.
pub proof fn lemma_steps_push(s: SessionView, es: Seq<Event>, e: Event)
    ensures
        steps(s, es.push(e)) == step(steps(s, es), e),
    decreases es.len(),
{
    if es.len() == 0 {
        assert(es.push(e)[0] == e);
        assert(es.push(e).skip(1) =~= Seq::<Event>::empty());
        assert(steps(step(s, e), es.push(e).skip(1)) == step(s, e));
    } else {
        assert(es.push(e)[0] == es[0]);
        assert(es.push(e).skip(1) =~= es.skip(1).push(e));
        lemma_steps_push(step(s, es[0]), es.skip(1), e);
    }
}

} // verus!
