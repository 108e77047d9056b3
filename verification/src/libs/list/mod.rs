pub mod queuelist;
