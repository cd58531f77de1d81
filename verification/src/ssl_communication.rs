pub mod gc_sender;
