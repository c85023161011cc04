//! The agent: planner, batch verdicts, tool calling, state machine and loop.
pub mod planner;
pub mod reviewer;
pub mod state;
pub mod tool_calling;
pub mod run_loop;
pub mod executor;
