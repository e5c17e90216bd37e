pub mod tcp_socket;
