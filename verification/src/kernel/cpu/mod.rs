pub mod cpumask;
