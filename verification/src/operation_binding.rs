//! Protocol-specific definitions an operation can carry.

use vstd::prelude::*;

verus! {

/// Protocol-specific information for an AMQP 1.0 operation.
pub struct AMQP1OperationBinding {}

/// Protocol-specific information for an AMQP 0-9-1 operation.
pub struct AMQPOperationBinding {
    pub expiration: Option<i32>,
    pub user_id: Option<String>,
    pub cc: Vec<String>,
    pub priority: Option<i32>,
    pub delivery_mode: Option<i32>,
    pub mandatory: Option<bool>,
    pub bcc: Vec<String>,
    pub reply_to: Option<String>,
    pub timestamp: Option<bool>,
    pub ack: Option<bool>,
    pub binding_version: Option<String>,
}

/// Protocol-specific information for an Anypoint MQ operation.
pub struct AnyPointMQOperationBinding {}

/// Protocol-specific information for a JMS operation.
pub struct JMSOperationBinding {}

/// Protocol-specific information for an MQTT 5 operation.
pub struct MQTT5OperationBinding {}

/// Protocol-specific information for an MQTT operation.
pub struct MQTTOperationBinding {
    pub qos: Option<i32>,
    pub retain: Option<bool>,
    pub binding_version: Option<String>,
}

/// Protocol-specific information for a Mercure operation.
pub struct MercureOperationBinding {}

/// Protocol-specific information for a NATS operation.
pub struct NATSOperationBinding {
    pub queue: Option<String>,
    pub binding_version: Option<String>,
}

/// Protocol-specific information for a Redis operation.
pub struct RedisOperationBinding {}

/// Protocol-specific information for an SNS operation.
pub struct SNSOperationBinding {}

/// Protocol-specific information for an SQS operation.
pub struct SQSOperationBinding {}

/// Protocol-specific information for a STOMP operation.
pub struct STOMPOperationBinding {}

/// Part of the Solace operation binding.
pub struct SolaceDestination {
    destination_type: Option<SolaceDestinationType>,
    delivery_mode: Option<SolaceDestinationDeliveryMode>,
    queue: Option<SolaceDestinationQueue>,
    topic: Option<SolaceDestinationTopic>,
}

/// Part of the Solace operation binding.
pub enum SolaceDestinationDeliveryMode {
    Direct,
    Persistent,
}

impl Default for SolaceDestinationDeliveryMode {
    /// Persistent delivery, unless the document says otherwise.
    fn default() -> (r: Self)
        ensures
            r matches SolaceDestinationDeliveryMode::Persistent,
    {
        SolaceDestinationDeliveryMode::Persistent
    }
}

/// Part of the Solace operation binding.
pub struct SolaceDestinationQueue {
    name: Option<String>,
    topic_subscriptions: Vec<String>,
    access_type: Option<SolaceDestinationQueueAccessType>,
}

/// Part of the Solace operation binding.
pub enum SolaceDestinationQueueAccessType {
    Exclusive,
    Nonexclusive,
}

/// Part of the Solace operation binding.
pub struct SolaceDestinationTopic {
    topic_subscriptions: Vec<String>,
}

/// Part of the Solace operation binding.
pub enum SolaceDestinationType {
    Queue,
    Topic,
}

/// Protocol-specific information for a Solace operation.
pub struct SolaceOperationBinding {
    pub binding_version: Option<String>,
    pub destinations: Vec<SolaceDestination>,
}

/// Protocol-specific information for a WebSockets operation.
pub struct WebSocketsOperationBinding {}

} // verus!
