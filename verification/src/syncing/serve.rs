//! The daemon's life: from loading its state to writing it out, and the life of each
//! connection.

use vstd::prelude::*;

verus! {

/// How long the daemon lets connections end, in milliseconds.
pub const LINGER_MILLIS: u64 = 100;

/// What the daemon does next.
#[derive(Debug, Clone, Copy, PartialEq, Eq, Structural)]
pub enum ServeStage {
    /// Load what was stored.
    LoadState,
    /// Make the socket, for its owner only.
    Bind,
    /// Tell the parent.
    SignalReady,
    /// Wait for a connection and have it served.
    Accept,
    /// Look whether to end; the state is written out and the socket removed where it
    /// is time.
    Poll,
    /// Let connections end.
    Linger,
    /// Write the state out and remove the socket.
    WriteOut,
    Exit(i32),
}

/// What came of it.
#[derive(Debug, Clone, Copy, PartialEq, Eq, Structural)]
pub enum ServeEvent {
    Done,
    Failed,
    /// It is time to end.
    Shutdown,
}

/// What the daemon does once something came back: it ends with a failure where it
/// cannot load its state or make its socket, and serves until it is told to end; a
/// connection that fails is no matter.
pub open spec fn serve_next(stage: ServeStage, event: ServeEvent) -> ServeStage {
    match stage {
        ServeStage::LoadState => if event is Done {
            ServeStage::Bind
        } else {
            ServeStage::Exit(1)
        },
        ServeStage::Bind => if event is Done {
            ServeStage::SignalReady
        } else {
            ServeStage::Exit(1)
        },
        ServeStage::SignalReady => ServeStage::Accept,
        ServeStage::Accept => ServeStage::Poll,
        ServeStage::Poll => if event is Shutdown {
            ServeStage::Linger
        } else {
            ServeStage::Accept
        },
        ServeStage::Linger => ServeStage::WriteOut,
        ServeStage::WriteOut => ServeStage::Exit(0),
        ServeStage::Exit(code) => ServeStage::Exit(code),
    }
}

impl ServeStage {
    /// Goes on with what came back.
    pub fn resume(self, event: ServeEvent) -> (r: ServeStage)
        ensures
            r == serve_next(self, event),
    {
        match self {
            ServeStage::LoadState => match event {
                ServeEvent::Done => ServeStage::Bind,
                _ => ServeStage::Exit(1),
            },
            ServeStage::Bind => match event {
                ServeEvent::Done => ServeStage::SignalReady,
                _ => ServeStage::Exit(1),
            },
            ServeStage::SignalReady => ServeStage::Accept,
            ServeStage::Accept => ServeStage::Poll,
            ServeStage::Poll => match event {
                ServeEvent::Shutdown => ServeStage::Linger,
                _ => ServeStage::Accept,
            },
            ServeStage::Linger => ServeStage::WriteOut,
            ServeStage::WriteOut => ServeStage::Exit(0),
            ServeStage::Exit(code) => ServeStage::Exit(code),
        }
    }
}

/// The stages that the daemon goes through, given what comes back.
pub open spec fn serve_stages(events: Seq<ServeEvent>) -> Seq<ServeStage>
    decreases events.len(),
{
    if events.len() == 0 {
        seq![ServeStage::LoadState]
    } else {
        let before = serve_stages(events.drop_last());
        before.push(serve_next(before.last(), events.last()))
    }
}

/// What is known of the stages that led to one.
spec fn came_from(stages: Seq<ServeStage>) -> bool {
    &&& stages.len() > 0
    &&& stages.last() is SignalReady ==> stages.contains(ServeStage::Bind)
    &&& stages.last() is Accept || stages.last() is Poll || stages.last() is Linger
        || stages.last() is WriteOut || stages.last() == ServeStage::Exit(0) ==> stages.contains(
        ServeStage::SignalReady,
    )
    &&& stages.last() == ServeStage::Exit(0) ==> stages.contains(ServeStage::WriteOut)
    &&& stages.last() matches ServeStage::Exit(code) ==> code == 0 || code == 1
    &&& stages.last() == ServeStage::Exit(1) ==> !stages.contains(ServeStage::SignalReady)
    &&& stages.last() is LoadState || stages.last() is Bind ==> !stages.contains(
        ServeStage::SignalReady,
    )
}

proof fn lemma_came_from(events: Seq<ServeEvent>)
    ensures
        came_from(serve_stages(events)),
    decreases events.len(),
{
    let s = serve_stages(events);
    if events.len() > 0 {
        lemma_came_from(events.drop_last());
        let b = serve_stages(events.drop_last());
        assert(b[b.len() - 1] == b.last());
        assert forall|x: ServeStage| b.contains(x) implies #[trigger] s.contains(x) by {
            let i = choose|i: int| 0 <= i < b.len() && b[i] == x;
            assert(s[i] == x);
        }
        assert(b.contains(b.last()));
        assert forall|x: ServeStage| #[trigger] s.contains(x) && x != s.last() implies b.contains(
            x,
        ) by {
            let i = choose|i: int| 0 <= i < s.len() && s[i] == x;
            assert(b[i] == x);
        }
    }
}

/// A daemon that ends well served first and wrote its state out last; one that ends
/// with a failure never said that it was ready.
pub proof fn law_daemon_writes_out_before_end(events: Seq<ServeEvent>)
    requires
        serve_stages(events).last() is Exit,
    ensures
        ({
            let s = serve_stages(events);
            let code = s.last()->0;
            &&& code == 0 || code == 1
            &&& code == 0 ==> s.contains(ServeStage::WriteOut) && s.contains(ServeStage::SignalReady)
            &&& code == 1 ==> !s.contains(ServeStage::SignalReady)
        }),
{
    lemma_came_from(events);
}

/// What a connection does next.
#[derive(Debug, Clone, Copy, PartialEq, Eq, Structural)]
pub enum ConnStage {
    /// Read the four bytes that say how long a request is.
    ReadHeader,
    /// Read that many bytes, and the request out of them.
    ReadRequest,
    /// Have the request answered, and write the answer with its length in front.
    Answer,
    /// The other side closed the connection.
    Closed,
    /// The connection is given up.
    Broken,
}

/// What came of it.
#[derive(Debug, Clone, Copy, PartialEq, Eq, Structural)]
pub enum ConnEvent {
    Done,
    /// The stream ended.
    Ended,
    Failed,
}

/// What a connection does once something came back: a stream that ends between
/// requests closes it, everything else that fails breaks it.
pub open spec fn conn_next(stage: ConnStage, event: ConnEvent) -> ConnStage {
    match stage {
        ConnStage::ReadHeader => match event {
            ConnEvent::Done => ConnStage::ReadRequest,
            ConnEvent::Ended => ConnStage::Closed,
            ConnEvent::Failed => ConnStage::Broken,
        },
        ConnStage::ReadRequest => if event is Done {
            ConnStage::Answer
        } else {
            ConnStage::Broken
        },
        ConnStage::Answer => if event is Done {
            ConnStage::ReadHeader
        } else {
            ConnStage::Broken
        },
        ConnStage::Closed => ConnStage::Closed,
        ConnStage::Broken => ConnStage::Broken,
    }
}

impl ConnStage {
    /// Goes on with what came back.
    pub fn resume(self, event: ConnEvent) -> (r: ConnStage)
        ensures
            r == conn_next(self, event),
    {
        match self {
            ConnStage::ReadHeader => match event {
                ConnEvent::Done => ConnStage::ReadRequest,
                ConnEvent::Ended => ConnStage::Closed,
                ConnEvent::Failed => ConnStage::Broken,
            },
            ConnStage::ReadRequest => match event {
                ConnEvent::Done => ConnStage::Answer,
                _ => ConnStage::Broken,
            },
            ConnStage::Answer => match event {
                ConnEvent::Done => ConnStage::ReadHeader,
                _ => ConnStage::Broken,
            },
            ConnStage::Closed => ConnStage::Closed,
            ConnStage::Broken => ConnStage::Broken,
        }
    }
}

/// A daemon whose state loads and whose socket can be made says that it is ready and
/// serves; a daemon that serves goes on serving, whatever becomes of a connection, until
/// it is told to end; it then lets connections end, writes its state out and ends well.
pub proof fn law_daemon_serves(stage: ServeStage, event: ServeEvent)
    ensures
        serve_next(ServeStage::LoadState, ServeEvent::Done) == ServeStage::Bind,
        serve_next(ServeStage::Bind, ServeEvent::Done) == ServeStage::SignalReady,
        serve_next(ServeStage::SignalReady, event) == ServeStage::Accept,
        serve_next(ServeStage::Accept, event) == ServeStage::Poll,
        serve_next(ServeStage::Poll, event) == ServeStage::Linger <==> event is Shutdown,
        serve_next(ServeStage::Poll, event) == ServeStage::Accept <==> !(event is Shutdown),
        serve_next(ServeStage::Linger, event) == ServeStage::WriteOut,
        serve_next(ServeStage::WriteOut, event) == ServeStage::Exit(0),
        stage is LoadState || stage is Bind ==> (event is Done <==> !(serve_next(stage, event) is Exit)),
        stage is LoadState || stage is Bind ==> (!(event is Done) ==> serve_next(stage, event)
            == ServeStage::Exit(1)),
        stage is Exit ==> serve_next(stage, event) == stage,
{
}

/// A connection answers one request after the other: a request is read, answered and
/// followed by the next; it is closed where the other side ends it between requests, and
/// broken by any failure.
pub proof fn law_connection_answers(stage: ConnStage, event: ConnEvent)
    ensures
        conn_next(ConnStage::ReadHeader, ConnEvent::Done) == ConnStage::ReadRequest,
        conn_next(ConnStage::ReadRequest, ConnEvent::Done) == ConnStage::Answer,
        conn_next(ConnStage::Answer, ConnEvent::Done) == ConnStage::ReadHeader,
        conn_next(stage, event) == ConnStage::Closed <==> stage is Closed || (stage is ReadHeader
            && event is Ended),
        conn_next(stage, event) == ConnStage::Answer <==> stage is ReadRequest && event is Done,
        event is Failed && !(stage is Closed) ==> conn_next(stage, event) == ConnStage::Broken,
        stage is Broken ==> conn_next(stage, event) == ConnStage::Broken,
{
}

} // verus!
